//! Tokens and errors as text for a reader.

use crate::error::{ParseError, ParseErrorKind, ParseErrorKindView, ParseErrorView};
use crate::token::{Symbol, Token, TokenView};
use vstd::prelude::*;
use vstd::string::StringExecFns;

verus! {

/// Appends one character to a text. This is `String::push` of the standard
/// library, which appends the given character to the end of the string; the
/// contract says so of the characters that the string holds.
#[verifier::external_body]
fn push_char(text: &mut String, c: char)
    ensures
        final(text)@ == old(text)@.push(c),
{
    text.push(c)
}

/// The character of a digit below sixteen, in upper case.
pub open spec fn digit_char(d: int) -> char {
    if d < 10 {
        ((48 + d) as u8) as char
    } else {
        ((55 + d) as u8) as char
    }
}

/// A natural number in decimal notation.
pub open spec fn natural_text(n: nat) -> Seq<char>
    decreases n,
{
    if n < 10 {
        seq![digit_char(n as int)]
    } else {
        natural_text(n / 10).push(digit_char((n % 10) as int))
    }
}

/// A byte in hexadecimal notation, in upper case and without leading zero.
pub open spec fn hex_text(b: u8) -> Seq<char> {
    if b < 16 {
        seq![digit_char(b as int)]
    } else {
        seq![digit_char(b as int / 16), digit_char(b as int % 16)]
    }
}

/// An integer in decimal notation.
pub open spec fn integer_text(n: int) -> Seq<char> {
    if n < 0 {
        seq!['-'] + natural_text((-n) as nat)
    } else {
        natural_text(n as nat)
    }
}

fn digit(d: u64) -> (r: char)
    requires
        d < 16,
    ensures
        r == digit_char(d as int),
{
    if d < 10 {
        ((48 + d) as u8) as char
    } else {
        ((55 + d) as u8) as char
    }
}

/// Appends a natural number in decimal notation.
pub fn append_natural(text: &mut String, n: u64)
    ensures
        final(text)@ == old(text)@ + natural_text(n as nat),
    decreases n,
{
    if n < 10 {
        push_char(text, digit(n));
        assert(text@ =~= old(text)@ + natural_text(n as nat));
    } else {
        append_natural(text, n / 10);
        push_char(text, digit(n % 10));
        assert(text@ =~= old(text)@ + natural_text(n as nat));
    }
}

/// Appends a byte in hexadecimal notation.
pub fn append_hex(text: &mut String, b: u8)
    ensures
        final(text)@ == old(text)@ + hex_text(b),
{
    if b >= 16 {
        push_char(text, digit((b / 16) as u64));
    }
    push_char(text, digit((b % 16) as u64));
    assert(text@ =~= old(text)@ + hex_text(b));
}

/// Appends an integer in decimal notation.
pub fn append_integer(text: &mut String, n: i64)
    requires
        n > i64::MIN,
    ensures
        final(text)@ == old(text)@ + integer_text(n as int),
{
    if n < 0 {
        push_char(text, '-');
        append_natural(text, (0 - n) as u64);
        assert(text@ =~= old(text)@ + integer_text(n as int));
    } else {
        append_natural(text, n as u64);
    }
}

/// How a symbol is written.
pub open spec fn symbol_text(s: Symbol) -> Seq<char> {
    match s {
        Symbol::Colon => ":"@,
        Symbol::Semicolon => ";"@,
        Symbol::Comma => ","@,
        Symbol::Dot => "."@,
        Symbol::ParenLeft => "("@,
        Symbol::ParenRight => ")"@,
        Symbol::CurlyLeft => "{"@,
        Symbol::CurlyRight => "}"@,
        Symbol::SquareLeft => "["@,
        Symbol::SquareRight => "]"@,
        Symbol::Add => "+"@,
        Symbol::Sub => "-"@,
        Symbol::Mul => "*"@,
        Symbol::Div => "/"@,
        Symbol::Mod => "%"@,
        Symbol::EqEq => "=="@,
        Symbol::Eq => "="@,
        Symbol::NoEq => "!="@,
        Symbol::No => "!"@,
        Symbol::LtEq => "<="@,
        Symbol::Lt => "<"@,
        Symbol::GtEq => ">="@,
        Symbol::Gt => ">"@,
        Symbol::And => "&&"@,
        Symbol::Or => "||"@,
    }
}

impl Symbol {
    /// How the symbol is written.
    pub fn as_str(self) -> (r: &'static str)
        ensures
            r@ == symbol_text(self),
    {
        match self {
            Symbol::Colon => ":",
            Symbol::Semicolon => ";",
            Symbol::Comma => ",",
            Symbol::Dot => ".",
            Symbol::ParenLeft => "(",
            Symbol::ParenRight => ")",
            Symbol::CurlyLeft => "{",
            Symbol::CurlyRight => "}",
            Symbol::SquareLeft => "[",
            Symbol::SquareRight => "]",
            Symbol::Add => "+",
            Symbol::Sub => "-",
            Symbol::Mul => "*",
            Symbol::Div => "/",
            Symbol::Mod => "%",
            Symbol::EqEq => "==",
            Symbol::Eq => "=",
            Symbol::NoEq => "!=",
            Symbol::No => "!",
            Symbol::LtEq => "<=",
            Symbol::Lt => "<",
            Symbol::GtEq => ">=",
            Symbol::Gt => ">",
            Symbol::And => "&&",
            Symbol::Or => "||",
        }
    }
}

/// What a token is called in a message.
pub open spec fn token_text(token: TokenView) -> Seq<char> {
    match token {
        TokenView::True => "keyword 'true'"@,
        TokenView::False => "keyword 'false'"@,
        TokenView::Null => "keyword 'null'"@,
        TokenView::Fn => "keyword 'fn'"@,
        TokenView::Return => "keyword 'return'"@,
        TokenView::Let => "keyword 'let'"@,
        TokenView::If => "keyword 'if'"@,
        TokenView::Else => "keyword 'else'"@,
        TokenView::Loop => "keyword 'loop'"@,
        TokenView::Break => "keyword 'break'"@,
        TokenView::Continue => "keyword 'continue'"@,
        TokenView::For => "keyword 'for'"@,
        TokenView::In => "keyword 'in'"@,
        TokenView::While => "keyword 'while'"@,
        TokenView::Identifier(name) => "identifier '"@ + name + "'"@,
        TokenView::Integer(n) => "integer '"@ + integer_text(n) + "'"@,
        TokenView::Float(f) => "float '"@ + f + "'"@,
        TokenView::String(s) => "string \""@ + s + "\""@,
        TokenView::Eof => "end of file"@,
        TokenView::Symbol(s) => "symbol '"@ + symbol_text(s) + "'"@,
    }
}

impl Token {
    /// What the token is called in a message.
    pub fn to_string(&self) -> (r: String)
        ensures
            r@ == token_text(self@),
    {
        match self {
            Token::True => String::from_str("keyword 'true'"),
            Token::False => String::from_str("keyword 'false'"),
            Token::Null => String::from_str("keyword 'null'"),
            Token::Fn => String::from_str("keyword 'fn'"),
            Token::Return => String::from_str("keyword 'return'"),
            Token::Let => String::from_str("keyword 'let'"),
            Token::If => String::from_str("keyword 'if'"),
            Token::Else => String::from_str("keyword 'else'"),
            Token::Loop => String::from_str("keyword 'loop'"),
            Token::Break => String::from_str("keyword 'break'"),
            Token::Continue => String::from_str("keyword 'continue'"),
            Token::For => String::from_str("keyword 'for'"),
            Token::In => String::from_str("keyword 'in'"),
            Token::While => String::from_str("keyword 'while'"),
            Token::Identifier(name) => {
                let mut text = String::from_str("identifier '");
                text.append(name.0.as_str());
                text.append("'");
                text
            },
            Token::Integer(n) => {
                let mut text = String::from_str("integer '");
                append_integer(&mut text, *n as i64);
                text.append("'");
                text
            },
            Token::Float(f) => {
                let mut text = String::from_str("float '");
                text.append(f.0.as_str());
                text.append("'");
                text
            },
            Token::String(s) => {
                let mut text = String::from_str("string \"");
                text.append(s.as_str());
                text.append("\"");
                text
            },
            Token::Eof => String::from_str("end of file"),
            Token::Symbol(s) => {
                let mut text = String::from_str("symbol '");
                text.append(s.as_str());
                text.append("'");
                text
            },
        }
    }
}

/// What is said of an error behind its place.
pub open spec fn kind_text(kind: ParseErrorKindView) -> Seq<char> {
    match kind {
        ParseErrorKindView::UnexpectedCharacter(c) => "Unexpected character '"@.push(c) + "'\n"@,
        ParseErrorKindView::NonAsciiByte(b) => "Non ASCII byte: 0x"@ + hex_text(b)
            + "\n    note: This is allowed in comments and string literals\n"@,
        ParseErrorKindView::UnexpectedToken { expected, found } => "Expected "@ + expected
            + ", found "@ + token_text(found) + "\n"@,
        ParseErrorKindView::InvalidIntegerLiteral { message } => message
            + "\n    note: integer literals must be in the range [-2147483648, 2147483647]\n"@,
        ParseErrorKindView::ExpressionNotAssignable => "Expression is not assignable\n"@,
        ParseErrorKindView::UnterminatedBlock => "Unterminated block\n"@,
    }
}

/// An error as a message: the name of the text, the line, and what is wrong.
pub open spec fn error_text(error: ParseErrorView) -> Seq<char> {
    (match error.source_file {
        Some(name) => name,
        None => "<source>"@,
    }) + ":"@ + natural_text(error.line_number) + " - "@ + kind_text(error.kind)
}

impl ParseError {
    /// The error as a message.
    pub fn to_string(&self) -> (r: String)
        ensures
            r@ == error_text(self@),
    {
        let mut text = match &self.source_file {
            Some(name) => name.clone(),
            None => String::from_str("<source>"),
        };
        text.append(":");
        append_natural(&mut text, self.line_number as u64);
        text.append(" - ");
        let ghost place = text@;
        match &self.kind {
            ParseErrorKind::UnexpectedCharacter(c) => {
                text.append("Unexpected character '");
                push_char(&mut text, *c);
                text.append("'\n");
            },
            ParseErrorKind::NonAsciiByte(b) => {
                text.append("Non ASCII byte: 0x");
                append_hex(&mut text, *b);
                text.append("\n    note: This is allowed in comments and string literals\n");
            },
            ParseErrorKind::UnexpectedToken { expected, found } => {
                text.append("Expected ");
                text.append(expected);
                text.append(", found ");
                text.append(found.to_string().as_str());
                text.append("\n");
            },
            ParseErrorKind::InvalidIntegerLiteral { message } => {
                text.append(message.as_str());
                text.append(
                    "\n    note: integer literals must be in the range [-2147483648, 2147483647]\n",
                );
            },
            ParseErrorKind::ExpressionNotAssignable => {
                text.append("Expression is not assignable\n");
            },
            ParseErrorKind::UnterminatedBlock => {
                text.append("Unterminated block\n");
            },
        }
        assert(text@ =~= place + kind_text(self.kind@));
        text
    }
}

} // verus!
