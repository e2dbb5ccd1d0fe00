//! The lexical grammar: what tokens a text holds, as a function of its bytes.

use crate::error::ParseErrorKindView;
use crate::token::{Symbol, TokenView};
use vstd::prelude::*;
use vstd::utf8::decode_utf8;

verus! {

pub const NEWLINE: u8 = 10;

pub const QUOTE: u8 = 34;

pub const HASH: u8 = 35;

pub const MINUS: u8 = 45;

pub const DOT: u8 = 46;

pub const UNDERSCORE: u8 = 95;

pub open spec fn is_digit(b: u8) -> bool {
    48 <= b <= 57
}

pub open spec fn is_letter(b: u8) -> bool {
    (65 <= b <= 90) || (97 <= b <= 122)
}

/// Space, tab, line feed, form feed and carriage return.
pub open spec fn is_blank(b: u8) -> bool {
    b == 32 || b == 9 || b == 10 || b == 12 || b == 13
}

/// The kinds of byte that a token is made of after its first byte.
#[derive(Debug, Clone, Copy, PartialEq, Eq, Structural)]
pub enum ByteClass {
    /// Decimal digits.
    Digit,
    /// Letters, digits and the underscore.
    Word,
    /// Everything but the double quote.
    Quoted,
}

impl ByteClass {
    pub open spec fn accepts(self, b: u8) -> bool {
        match self {
            ByteClass::Digit => is_digit(b),
            ByteClass::Word => is_letter(b) || is_digit(b) || b == UNDERSCORE,
            ByteClass::Quoted => b != QUOTE,
        }
    }
}

/// The first position at or after `pos` whose byte is not of the class.
pub open spec fn run_end(src: Seq<u8>, pos: int, class: ByteClass) -> int
    decreases src.len() - pos,
{
    if 0 <= pos < src.len() && class.accepts(src[pos]) {
        run_end(src, pos + 1, class)
    } else {
        pos
    }
}

/// The first position at or after `pos` that is neither blank nor inside a
/// comment. A comment runs from `#` up to, and not including, the next line
/// feed.
pub open spec fn trivia_end(src: Seq<u8>, pos: int, in_comment: bool) -> int
    decreases src.len() - pos, (if in_comment { 1nat } else { 0nat }),
{
    if 0 <= pos < src.len() {
        if in_comment {
            if src[pos] == NEWLINE {
                trivia_end(src, pos, false)
            } else {
                trivia_end(src, pos + 1, true)
            }
        } else if is_blank(src[pos]) {
            trivia_end(src, pos + 1, false)
        } else if src[pos] == HASH {
            trivia_end(src, pos + 1, true)
        } else {
            pos
        }
    } else {
        pos
    }
}

/// How many line feeds stand in `src[from..to]`.
pub open spec fn newlines(src: Seq<u8>, from: int, to: int) -> nat
    decreases to - from,
{
    if from < to {
        newlines(src, from, to - 1) + (if src[to - 1] == NEWLINE { 1nat } else { 0nat })
    } else {
        0
    }
}

/// A line number `count` lines further down. Line numbers stop at the
/// largest `usize`.
pub open spec fn bump(line: nat, count: nat) -> nat {
    if line + count <= usize::MAX {
        line + count
    } else {
        usize::MAX as nat
    }
}

/// The characters that `src[from..to]` encodes.
pub open spec fn text(src: Seq<u8>, from: int, to: int) -> Seq<char> {
    decode_utf8(src.subrange(from, to))
}

/// The number that a sequence of decimal digits denotes.
pub open spec fn decimal(digits: Seq<u8>) -> nat
    decreases digits.len(),
{
    if digits.len() == 0 {
        0
    } else {
        decimal(digits.drop_last()) * 10 + (digits.last() as int - 48) as nat
    }
}

/// The keyword that a word is, or else the identifier.
pub open spec fn word_token(word: Seq<char>) -> TokenView {
    if word == "true"@ {
        TokenView::True
    } else if word == "false"@ {
        TokenView::False
    } else if word == "null"@ {
        TokenView::Null
    } else if word == "fn"@ {
        TokenView::Fn
    } else if word == "return"@ {
        TokenView::Return
    } else if word == "let"@ {
        TokenView::Let
    } else if word == "if"@ {
        TokenView::If
    } else if word == "else"@ {
        TokenView::Else
    } else if word == "loop"@ {
        TokenView::Loop
    } else if word == "break"@ {
        TokenView::Break
    } else if word == "continue"@ {
        TokenView::Continue
    } else if word == "for"@ {
        TokenView::For
    } else if word == "in"@ {
        TokenView::In
    } else if word == "while"@ {
        TokenView::While
    } else {
        TokenView::Identifier(word)
    }
}

/// The symbol that two bytes spell together.
pub open spec fn paired_symbol(first: u8, second: u8) -> Option<Symbol> {
    if first == 61 && second == 61 {
        Some(Symbol::EqEq)
    } else if first == 33 && second == 61 {
        Some(Symbol::NoEq)
    } else if first == 60 && second == 61 {
        Some(Symbol::LtEq)
    } else if first == 62 && second == 61 {
        Some(Symbol::GtEq)
    } else if first == 38 && second == 38 {
        Some(Symbol::And)
    } else if first == 124 && second == 124 {
        Some(Symbol::Or)
    } else {
        None
    }
}

/// The symbol that one byte spells alone.
pub open spec fn single_symbol(b: u8) -> Option<Symbol> {
    if b == 58 {
        Some(Symbol::Colon)
    } else if b == 59 {
        Some(Symbol::Semicolon)
    } else if b == 44 {
        Some(Symbol::Comma)
    } else if b == 46 {
        Some(Symbol::Dot)
    } else if b == 40 {
        Some(Symbol::ParenLeft)
    } else if b == 41 {
        Some(Symbol::ParenRight)
    } else if b == 123 {
        Some(Symbol::CurlyLeft)
    } else if b == 125 {
        Some(Symbol::CurlyRight)
    } else if b == 91 {
        Some(Symbol::SquareLeft)
    } else if b == 93 {
        Some(Symbol::SquareRight)
    } else if b == 43 {
        Some(Symbol::Add)
    } else if b == 45 {
        Some(Symbol::Sub)
    } else if b == 42 {
        Some(Symbol::Mul)
    } else if b == 47 {
        Some(Symbol::Div)
    } else if b == 37 {
        Some(Symbol::Mod)
    } else if b == 61 {
        Some(Symbol::Eq)
    } else if b == 33 {
        Some(Symbol::No)
    } else if b == 60 {
        Some(Symbol::Lt)
    } else if b == 62 {
        Some(Symbol::Gt)
    } else {
        None
    }
}

/// What one step of lexing finds, and where it leaves off.
pub struct Scan {
    pub item: Result<TokenView, ParseErrorKindView>,
    /// The position after the token; for an error, the position of the
    /// offending byte.
    pub end: int,
}

pub open spec fn too_large(literal: Seq<char>) -> Seq<char> {
    "Integer literal too large ("@ + literal + ")"@
}

pub open spec fn too_small(literal: Seq<char>) -> Seq<char> {
    "Integer literal too small ("@ + literal + ")"@
}

/// The integer literal in `src[p..end]`, which is an optional minus sign and
/// then digits. A literal outside the 32-bit signed range is an error.
pub open spec fn integer_token(src: Seq<u8>, p: int, end: int) -> Result<
    TokenView,
    ParseErrorKindView,
> {
    let negative = src[p] == MINUS;
    let magnitude = decimal(src.subrange(if negative { p + 1 } else { p }, end));
    if negative && magnitude > 0x8000_0000 {
        Err(ParseErrorKindView::InvalidIntegerLiteral { message: too_small(text(src, p, end)) })
    } else if !negative && magnitude > 0x7fff_ffff {
        Err(ParseErrorKindView::InvalidIntegerLiteral { message: too_large(text(src, p, end)) })
    } else if negative {
        Ok(TokenView::Integer(-(magnitude as int)))
    } else {
        Ok(TokenView::Integer(magnitude as int))
    }
}

/// The number that starts at `p`: digits, which a minus sign may precede and
/// which a dot and more digits may follow. A minus sign right before a digit
/// always belongs to the number.
pub open spec fn number_at(src: Seq<u8>, p: int) -> Scan {
    let whole_end = run_end(src, p + 1, ByteClass::Digit);
    if whole_end + 1 < src.len() && src[whole_end] == DOT && is_digit(src[whole_end + 1]) {
        let end = run_end(src, whole_end + 2, ByteClass::Digit);
        Scan { item: Ok(TokenView::Float(text(src, p, end))), end }
    } else {
        let item = integer_token(src, p, whole_end);
        Scan { item, end: if item is Ok { whole_end } else { p } }
    }
}

/// The symbol that starts at `p`, the longest that fits.
pub open spec fn symbol_at(src: Seq<u8>, p: int) -> Scan {
    if p + 1 < src.len() && paired_symbol(src[p], src[p + 1]) is Some {
        Scan { item: Ok(TokenView::Symbol(paired_symbol(src[p], src[p + 1])->0)), end: p + 2 }
    } else if single_symbol(src[p]) is Some {
        Scan { item: Ok(TokenView::Symbol(single_symbol(src[p])->0)), end: p + 1 }
    } else {
        Scan { item: Err(ParseErrorKindView::UnexpectedCharacter(src[p] as char)), end: p }
    }
}

/// The token that starts at `p`, a position that is neither blank nor inside
/// a comment.
pub open spec fn token_at(src: Seq<u8>, p: int) -> Scan {
    if !(0 <= p < src.len()) {
        Scan { item: Ok(TokenView::Eof), end: p }
    } else if src[p] >= 128 {
        Scan { item: Err(ParseErrorKindView::NonAsciiByte(src[p])), end: p }
    } else if is_digit(src[p]) || (src[p] == MINUS && p + 1 < src.len() && is_digit(src[p + 1])) {
        number_at(src, p)
    } else if is_letter(src[p]) || src[p] == UNDERSCORE {
        let end = run_end(src, p + 1, ByteClass::Word);
        Scan { item: Ok(word_token(text(src, p, end))), end }
    } else if src[p] == QUOTE {
        let close = run_end(src, p + 1, ByteClass::Quoted);
        Scan {
            item: Ok(TokenView::String(text(src, p + 1, close))),
            end: if close < src.len() {
                close + 1
            } else {
                close
            },
        }
    } else {
        symbol_at(src, p)
    }
}

/// A token with the line number that the lexer has reached when it has read
/// the token.
pub struct Lexeme {
    pub token: TokenView,
    pub line: nat,
}

/// What is left of a text for a parser to read: the tokens that it has not
/// consumed yet, what stands behind the last of them, and the line that the
/// lexer has reached.
pub struct Cursor {
    /// The tokens still to come, without the end of input.
    pub pending: Seq<Lexeme>,
    /// The lexical error behind the pending tokens; `None` where the text
    /// ends there.
    pub failure: Option<ParseErrorKindView>,
    /// The line on which the text ends or the error stands.
    pub end_line: nat,
    /// The line that the lexer has reached.
    pub line: nat,
}

/// What is left to read of `src` from `pos` on, for a lexer that stands on
/// `line`.
pub open spec fn stream(src: Seq<u8>, pos: int, line: nat) -> Cursor
    decreases src.len() - pos,
{
    let p = trivia_end(src, pos, false);
    let reached = bump(line, newlines(src, pos, p));
    let scan = token_at(src, p);
    match scan.item {
        Ok(token) => if token != TokenView::Eof && 0 <= pos < scan.end <= src.len() {
            let rest = stream(src, scan.end, reached);
            Cursor {
                pending: seq![Lexeme { token, line: reached }] + rest.pending,
                failure: rest.failure,
                end_line: rest.end_line,
                line,
            }
        } else {
            Cursor { pending: Seq::empty(), failure: None, end_line: reached, line }
        },
        Err(kind) => Cursor {
            pending: Seq::empty(),
            failure: Some(kind),
            end_line: reached,
            line,
        },
    }
}

/// What a lexer has before it when it starts on a text.
pub open spec fn lexemes(src: Seq<u8>) -> Cursor {
    stream(src, 0, 1)
}

} // verus!
