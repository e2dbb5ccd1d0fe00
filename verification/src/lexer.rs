//! The lexer: a text read token by token, with one token of lookahead.

use crate::ast::{Float, Identifier};
use crate::error::{error_at, LineNumber, ParseError, ParseErrorKind, ParseErrorView};
use crate::lexical::{
    bump, lexemes, newlines, paired_symbol, single_symbol, stream, token_at, trivia_end,
    word_token, ByteClass, Cursor, Lexeme, DOT, MINUS, QUOTE, UNDERSCORE,
};
use crate::scanning::{
    digit, lemma_boundary_behind_ascii, lemma_boundary_on_ascii, letter, magnitude, run,
    skip_trivia, text_between,
};
use crate::token::{Symbol, Token, TokenView};
use vstd::prelude::*;
use vstd::string::{StringExecFns, StringSliceAdditionalSpecFns};
use vstd::utf8::encode_utf8_valid_utf8;

verus! {

impl Cursor {
    /// The next token, or the lexical error in its place.
    pub open spec fn front(self) -> Result<TokenView, ParseErrorView> {
        if self.pending.len() > 0 {
            Ok(self.pending[0].token)
        } else {
            match self.failure {
                None => Ok(TokenView::Eof),
                Some(kind) => Err(error_at(self.end_line, kind)),
            }
        }
    }

    /// The line that the lexer stands on once it has read the next token.
    pub open spec fn front_line(self) -> nat {
        if self.pending.len() > 0 {
            self.pending[0].line
        } else {
            self.end_line
        }
    }

    /// The cursor after a look at the next token.
    pub open spec fn peeked(self) -> Cursor {
        Cursor { line: self.front_line(), ..self }
    }

    /// The cursor after the next token has been taken. The end of input and
    /// a lexical error stay where they are.
    pub open spec fn advanced(self) -> Cursor {
        Cursor {
            pending: if self.pending.len() > 0 {
                self.pending.skip(1)
            } else {
                self.pending
            },
            line: self.front_line(),
            ..self
        }
    }
}

fn paired(first: u8, second: u8) -> (r: Option<Symbol>)
    ensures
        r == paired_symbol(first, second),
{
    if first == 61 && second == 61 {
        Some(Symbol::EqEq)
    } else if first == 33 && second == 61 {
        Some(Symbol::NoEq)
    } else if first == 60 && second == 61 {
        Some(Symbol::LtEq)
    } else if first == 62 && second == 61 {
        Some(Symbol::GtEq)
    } else if first == 38 && second == 38 {
        Some(Symbol::And)
    } else if first == 124 && second == 124 {
        Some(Symbol::Or)
    } else {
        None
    }
}

fn single(b: u8) -> (r: Option<Symbol>)
    ensures
        r == single_symbol(b),
{
    if b == 58 {
        Some(Symbol::Colon)
    } else if b == 59 {
        Some(Symbol::Semicolon)
    } else if b == 44 {
        Some(Symbol::Comma)
    } else if b == 46 {
        Some(Symbol::Dot)
    } else if b == 40 {
        Some(Symbol::ParenLeft)
    } else if b == 41 {
        Some(Symbol::ParenRight)
    } else if b == 123 {
        Some(Symbol::CurlyLeft)
    } else if b == 125 {
        Some(Symbol::CurlyRight)
    } else if b == 91 {
        Some(Symbol::SquareLeft)
    } else if b == 93 {
        Some(Symbol::SquareRight)
    } else if b == 43 {
        Some(Symbol::Add)
    } else if b == 45 {
        Some(Symbol::Sub)
    } else if b == 42 {
        Some(Symbol::Mul)
    } else if b == 47 {
        Some(Symbol::Div)
    } else if b == 37 {
        Some(Symbol::Mod)
    } else if b == 61 {
        Some(Symbol::Eq)
    } else if b == 33 {
        Some(Symbol::No)
    } else if b == 60 {
        Some(Symbol::Lt)
    } else if b == 62 {
        Some(Symbol::Gt)
    } else {
        None
    }
}

/// Tells a keyword from an identifier.
fn word(text: String) -> (r: Token)
    ensures
        r@ == word_token(text@),
{
    if text == String::from_str("true") {
        Token::True
    } else if text == String::from_str("false") {
        Token::False
    } else if text == String::from_str("null") {
        Token::Null
    } else if text == String::from_str("fn") {
        Token::Fn
    } else if text == String::from_str("return") {
        Token::Return
    } else if text == String::from_str("let") {
        Token::Let
    } else if text == String::from_str("if") {
        Token::If
    } else if text == String::from_str("else") {
        Token::Else
    } else if text == String::from_str("loop") {
        Token::Loop
    } else if text == String::from_str("break") {
        Token::Break
    } else if text == String::from_str("continue") {
        Token::Continue
    } else if text == String::from_str("for") {
        Token::For
    } else if text == String::from_str("in") {
        Token::In
    } else if text == String::from_str("while") {
        Token::While
    } else {
        Token::Identifier(Identifier(text))
    }
}

#[derive(Debug)]
pub struct Lexer<'a> {
    source: &'a str,
    current_index: usize,
    current_token: Option<Token>,
    line_number: LineNumber,
}

impl<'a> Lexer<'a> {
    #[verifier::type_invariant]
    spec fn well_formed(&self) -> bool {
        &&& self.current_index <= self.source.spec_bytes().len()
        &&& (self.current_token matches Some(token) && token@ == TokenView::Eof)
            ==> self.current_index == self.source.spec_bytes().len()
    }

    /// The bytes of the text that the lexer reads.
    pub closed spec fn bytes(&self) -> Seq<u8> {
        self.source.spec_bytes()
    }

    /// What the lexer has before it.
    pub closed spec fn view(&self) -> Cursor {
        let line = self.line_number as nat;
        match self.current_token {
            None => stream(self.bytes(), self.current_index as int, line),
            Some(token) => if token@ == TokenView::Eof {
                Cursor { pending: Seq::empty(), failure: None, end_line: line, line }
            } else {
                let rest = stream(self.bytes(), self.current_index as int, line);
                Cursor {
                    pending: seq![Lexeme { token: token@, line }] + rest.pending,
                    failure: rest.failure,
                    end_line: rest.end_line,
                    line,
                }
            },
        }
    }

    pub fn new(input: &'a str) -> (r: Self)
        ensures
            r.bytes() == input.spec_bytes(),
            r@ == lexemes(input.spec_bytes()),
    {
        Lexer { source: input, current_index: 0, current_token: None, line_number: 1 }
    }

    /// Takes the next token.
    pub fn next(&mut self) -> (r: Result<Token, ParseError>)
        ensures
            final(self).bytes() == old(self).bytes(),
            final(self)@ == old(self)@.advanced(),
            final(self)@.line >= old(self)@.line,
            match r {
                Ok(token) => old(self)@.front() == Ok::<TokenView, ParseErrorView>(token@),
                Err(e) => old(self)@.front() == Err::<TokenView, ParseErrorView>(e@),
            },
    {
        proof {
            use_type_invariant(&*self);
        }
        let ghost before = *self;
        let held = match &self.current_token {
            Some(token) => Some(token.clone()),
            None => None,
        };
        match held {
            Some(token) => {
                self.current_token = None;
                assert(self@.pending =~= before@.advanced().pending);
                Ok(token)
            },
            None => {
                let r = self.parse_token();
                assert(self@.pending =~= before@.advanced().pending);
                r
            },
        }
    }

    /// Looks at the next token and leaves it in place.
    pub fn peek(&mut self) -> (r: Result<Token, ParseError>)
        ensures
            final(self).bytes() == old(self).bytes(),
            final(self)@ == old(self)@.peeked(),
            final(self)@.line >= old(self)@.line,
            match r {
                Ok(token) => old(self)@.front() == Ok::<TokenView, ParseErrorView>(token@),
                Err(e) => old(self)@.front() == Err::<TokenView, ParseErrorView>(e@),
            },
    {
        proof {
            use_type_invariant(&*self);
        }
        let ghost before = *self;
        if self.current_token.is_none() {
            match self.parse_token() {
                Ok(token) => {
                    let copy = token.clone();
                    self.current_token = Some(token);
                    assert(self@.pending =~= before@.peeked().pending);
                    Ok(copy)
                },
                Err(e) => {
                    assert(self@.pending =~= before@.peeked().pending);
                    Err(e)
                },
            }
        } else {
            match &self.current_token {
                Some(token) => Ok(token.clone()),
                None => Ok(Token::Eof),
            }
        }
    }

    /// An error of the given kind on the line that the lexer has reached.
    pub fn error(&self, kind: ParseErrorKind) -> (r: ParseError)
        ensures
            r@ == error_at(self@.line, kind@),
    {
        ParseError { source_file: None, line_number: self.line_number, kind }
    }

    /// Reads one token from the text.
    fn parse_token(&mut self) -> (r: Result<Token, ParseError>)
        requires
            old(self).current_token is None,
            old(self).current_index <= old(self).source.spec_bytes().len(),
        ensures
            final(self).source == old(self).source,
            final(self).current_token is None,
            ({
                let src = old(self).source.spec_bytes();
                let p = trivia_end(src, old(self).current_index as int, false);
                let reached = bump(
                    old(self).line_number as nat,
                    newlines(src, old(self).current_index as int, p),
                );
                let scan = token_at(src, p);
                &&& final(self).line_number == reached
                &&& old(self).current_index <= final(self).current_index <= src.len()
                &&& match r {
                    Ok(token) => {
                        &&& scan.item == Ok::<TokenView, crate::error::ParseErrorKindView>(token@)
                        &&& final(self).current_index == scan.end
                        &&& token@ != TokenView::Eof ==> old(self).current_index < scan.end
                        &&& token@ == TokenView::Eof ==> scan.end == src.len()
                    },
                    Err(e) => {
                        &&& scan.item is Err
                        &&& e@ == error_at(reached, scan.item->Err_0)
                        &&& final(self).current_index == p
                        &&& p < src.len()
                        &&& !crate::lexical::is_blank(src[p])
                        &&& src[p] != crate::lexical::HASH
                    },
                }
            }),
    {
        let source: &'a str = self.source;
        let bytes = source.as_bytes();
        let (p, reached) = skip_trivia(bytes, self.current_index, self.line_number);
        self.line_number = reached;
        self.current_index = p;
        if p >= bytes.len() {
            return Ok(Token::Eof);
        }
        let b = bytes[p];
        if b >= 128 {
            return Err(self.error(ParseErrorKind::NonAsciiByte(b)));
        }
        proof {
            encode_utf8_valid_utf8(source@);
            lemma_boundary_on_ascii(bytes@, p as int);
        }
        if digit(b) || (b == MINUS && bytes.len() - p > 1 && digit(bytes[p + 1])) {
            let whole_end = run(bytes, p + 1, ByteClass::Digit);
            let fractional = bytes.len() - whole_end > 1 && bytes[whole_end] == DOT && digit(
                bytes[whole_end + 1],
            );
            if fractional {
                let end = run(bytes, whole_end + 2, ByteClass::Digit);
                proof {
                    lemma_boundary_behind_ascii(bytes@, end as int);
                }
                let literal = text_between(source, p, end);
                self.current_index = end;
                Ok(Token::Float(Float(literal)))
            } else {
                proof {
                    lemma_boundary_behind_ascii(bytes@, whole_end as int);
                }
                let literal = text_between(source, p, whole_end);
                let negative = b == MINUS;
                let start = if negative {
                    p + 1
                } else {
                    p
                };
                let m = magnitude(bytes, start, whole_end);
                if negative && m > 0x8000_0000 {
                    let mut message = String::from_str("Integer literal too small (");
                    message.append(literal.as_str());
                    message.append(")");
                    Err(self.error(ParseErrorKind::InvalidIntegerLiteral { message }))
                } else if !negative && m > 0x7fff_ffff {
                    let mut message = String::from_str("Integer literal too large (");
                    message.append(literal.as_str());
                    message.append(")");
                    Err(self.error(ParseErrorKind::InvalidIntegerLiteral { message }))
                } else {
                    self.current_index = whole_end;
                    let value: i64 = if negative {
                        0 - (m as i64)
                    } else {
                        m as i64
                    };
                    Ok(Token::Integer(value as i32))
                }
            }
        } else if letter(b) || b == UNDERSCORE {
            let end = run(bytes, p + 1, ByteClass::Word);
            proof {
                lemma_boundary_behind_ascii(bytes@, end as int);
            }
            let name = text_between(source, p, end);
            self.current_index = end;
            Ok(word(name))
        } else if b == QUOTE {
            let close = run(bytes, p + 1, ByteClass::Quoted);
            proof {
                lemma_boundary_behind_ascii(bytes@, p + 1);
                lemma_boundary_on_ascii(bytes@, close as int);
            }
            let content = text_between(source, p + 1, close);
            self.current_index = if close < bytes.len() {
                close + 1
            } else {
                close
            };
            Ok(Token::String(content))
        } else {
            let both = if bytes.len() - p > 1 {
                paired(b, bytes[p + 1])
            } else {
                None
            };
            match both {
                Some(symbol) => {
                    self.current_index = p + 2;
                    Ok(Token::Symbol(symbol))
                },
                None => match single(b) {
                    Some(symbol) => {
                        self.current_index = p + 1;
                        Ok(Token::Symbol(symbol))
                    },
                    None => Err(self.error(ParseErrorKind::UnexpectedCharacter(b as char))),
                },
            }
        }
    }
}

} // verus!
