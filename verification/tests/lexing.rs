use mill::ast::{Float, Identifier};
use mill::error::{ParseError, ParseErrorKind};
use mill::lexer::Lexer;
use mill::token::{Symbol, Token};

fn all_tokens(source: &str) -> Result<Vec<Token>, ParseError> {
    let mut lexer = Lexer::new(source);
    let mut tokens = Vec::new();
    loop {
        let token = lexer.next()?;
        let end = token == Token::Eof;
        tokens.push(token);
        if end {
            return Ok(tokens);
        }
    }
}

fn name(text: &str) -> Token {
    Token::Identifier(Identifier(text.to_string()))
}

#[test]
fn empty_text_is_end_of_input() {
    assert_eq!(all_tokens("").unwrap(), vec![Token::Eof]);
    assert_eq!(all_tokens("  \t\r\n ").unwrap(), vec![Token::Eof]);
}

#[test]
fn end_of_input_is_returned_forever() {
    let mut lexer = Lexer::new("x");
    assert_eq!(lexer.next().unwrap(), name("x"));
    assert_eq!(lexer.next().unwrap(), Token::Eof);
    assert_eq!(lexer.next().unwrap(), Token::Eof);
    assert_eq!(lexer.peek().unwrap(), Token::Eof);
    assert_eq!(lexer.next().unwrap(), Token::Eof);
}

#[test]
fn peek_leaves_the_token_in_place() {
    let mut lexer = Lexer::new("a b");
    assert_eq!(lexer.peek().unwrap(), name("a"));
    assert_eq!(lexer.peek().unwrap(), name("a"));
    assert_eq!(lexer.next().unwrap(), name("a"));
    assert_eq!(lexer.peek().unwrap(), name("b"));
    assert_eq!(lexer.next().unwrap(), name("b"));
    assert_eq!(lexer.next().unwrap(), Token::Eof);
}

#[test]
fn keywords_are_told_from_identifiers() {
    assert_eq!(
        all_tokens("true false null fn return let if else loop break continue for in while")
            .unwrap(),
        vec![
            Token::True,
            Token::False,
            Token::Null,
            Token::Fn,
            Token::Return,
            Token::Let,
            Token::If,
            Token::Else,
            Token::Loop,
            Token::Break,
            Token::Continue,
            Token::For,
            Token::In,
            Token::While,
            Token::Eof,
        ]
    );
    assert_eq!(
        all_tokens("truth _x x_1 lets If").unwrap(),
        vec![name("truth"), name("_x"), name("x_1"), name("lets"), name("If"), Token::Eof]
    );
}

#[test]
fn symbols_take_the_longest_form() {
    assert_eq!(
        all_tokens("== != <= >= && || = ! < >").unwrap(),
        vec![
            Token::Symbol(Symbol::EqEq),
            Token::Symbol(Symbol::NoEq),
            Token::Symbol(Symbol::LtEq),
            Token::Symbol(Symbol::GtEq),
            Token::Symbol(Symbol::And),
            Token::Symbol(Symbol::Or),
            Token::Symbol(Symbol::Eq),
            Token::Symbol(Symbol::No),
            Token::Symbol(Symbol::Lt),
            Token::Symbol(Symbol::Gt),
            Token::Eof,
        ]
    );
    assert_eq!(
        all_tokens("===").unwrap(),
        vec![Token::Symbol(Symbol::EqEq), Token::Symbol(Symbol::Eq), Token::Eof]
    );
    assert_eq!(
        all_tokens(":;,.(){}[]+-*/%").unwrap(),
        vec![
            Token::Symbol(Symbol::Colon),
            Token::Symbol(Symbol::Semicolon),
            Token::Symbol(Symbol::Comma),
            Token::Symbol(Symbol::Dot),
            Token::Symbol(Symbol::ParenLeft),
            Token::Symbol(Symbol::ParenRight),
            Token::Symbol(Symbol::CurlyLeft),
            Token::Symbol(Symbol::CurlyRight),
            Token::Symbol(Symbol::SquareLeft),
            Token::Symbol(Symbol::SquareRight),
            Token::Symbol(Symbol::Add),
            Token::Symbol(Symbol::Sub),
            Token::Symbol(Symbol::Mul),
            Token::Symbol(Symbol::Div),
            Token::Symbol(Symbol::Mod),
            Token::Eof,
        ]
    );
}

#[test]
fn integers_are_read_with_their_sign() {
    assert_eq!(
        all_tokens("0 7 007 -5 2147483647 -2147483648").unwrap(),
        vec![
            Token::Integer(0),
            Token::Integer(7),
            Token::Integer(7),
            Token::Integer(-5),
            Token::Integer(2147483647),
            Token::Integer(-2147483648),
            Token::Eof,
        ]
    );
    assert_eq!(
        all_tokens("1 - 2").unwrap(),
        vec![Token::Integer(1), Token::Symbol(Symbol::Sub), Token::Integer(2), Token::Eof]
    );
    assert_eq!(
        all_tokens("1 -2").unwrap(),
        vec![Token::Integer(1), Token::Integer(-2), Token::Eof]
    );
}

#[test]
fn integer_too_large_is_its_own_error() {
    let error = all_tokens("\n2147483648").unwrap_err();
    assert_eq!(
        error,
        ParseError {
            source_file: None,
            line_number: 2,
            kind: ParseErrorKind::InvalidIntegerLiteral {
                message: "Integer literal too large (2147483648)".to_string(),
            },
        }
    );
    assert!(matches!(
        all_tokens("99999999999999999999999999").unwrap_err().kind,
        ParseErrorKind::InvalidIntegerLiteral { .. }
    ));
}

#[test]
fn integer_too_small_is_its_own_error() {
    let error = all_tokens("-2147483649").unwrap_err();
    assert_eq!(
        error.kind,
        ParseErrorKind::InvalidIntegerLiteral {
            message: "Integer literal too small (-2147483649)".to_string(),
        }
    );
    assert_eq!(error.line_number, 1);
}

#[test]
fn a_failed_literal_fails_again() {
    let mut lexer = Lexer::new("x 2147483648 y");
    assert_eq!(lexer.next().unwrap(), name("x"));
    let first = lexer.next().unwrap_err();
    let second = lexer.next().unwrap_err();
    assert_eq!(first, second);
}

#[test]
fn floats_keep_their_notation() {
    assert_eq!(
        all_tokens("1.5 -0.25 10.0").unwrap(),
        vec![
            Token::Float(Float("1.5".to_string())),
            Token::Float(Float("-0.25".to_string())),
            Token::Float(Float("10.0".to_string())),
            Token::Eof,
        ]
    );
}

#[test]
fn a_dot_without_digits_is_a_symbol() {
    assert_eq!(
        all_tokens("1.x 2.").unwrap(),
        vec![
            Token::Integer(1),
            Token::Symbol(Symbol::Dot),
            name("x"),
            Token::Integer(2),
            Token::Symbol(Symbol::Dot),
            Token::Eof,
        ]
    );
}

#[test]
fn strings_run_to_the_next_quote() {
    assert_eq!(
        all_tokens("\"abc\" \"\" \"a b\\\" c").unwrap(),
        vec![
            Token::String("abc".to_string()),
            Token::String("".to_string()),
            Token::String("a b\\".to_string()),
            name("c"),
            Token::Eof,
        ]
    );
}

#[test]
fn strings_may_hold_any_character() {
    assert_eq!(
        all_tokens("\"h\u{e9}llo \u{1f600}\" x").unwrap(),
        vec![Token::String("h\u{e9}llo \u{1f600}".to_string()), name("x"), Token::Eof]
    );
}

#[test]
fn a_string_without_end_runs_to_the_end() {
    assert_eq!(
        all_tokens("x \"abc").unwrap(),
        vec![name("x"), Token::String("abc".to_string()), Token::Eof]
    );
    assert_eq!(all_tokens("\"").unwrap(), vec![Token::String("".to_string()), Token::Eof]);
}

#[test]
fn comments_run_to_the_end_of_the_line() {
    assert_eq!(
        all_tokens("a # b c \u{e9}\nd # e").unwrap(),
        vec![name("a"), name("d"), Token::Eof]
    );
}

#[test]
fn lines_are_counted_once_each() {
    let mut lexer = Lexer::new("a\n# comment\n\nb \"x\ny\" c\n$");
    assert_eq!(lexer.error(ParseErrorKind::UnterminatedBlock).line_number, 1);
    lexer.next().unwrap();
    assert_eq!(lexer.error(ParseErrorKind::UnterminatedBlock).line_number, 1);
    assert_eq!(lexer.peek().unwrap(), name("b"));
    assert_eq!(lexer.error(ParseErrorKind::UnterminatedBlock).line_number, 4);
    lexer.next().unwrap();
    assert_eq!(lexer.next().unwrap(), Token::String("x\ny".to_string()));
    assert_eq!(lexer.next().unwrap(), name("c"));
    assert_eq!(lexer.error(ParseErrorKind::UnterminatedBlock).line_number, 4);
    let error = lexer.next().unwrap_err();
    assert_eq!(error.line_number, 5);
    assert_eq!(error.kind, ParseErrorKind::UnexpectedCharacter('$'));
    assert_eq!(error.source_file, None);
}

#[test]
fn a_byte_outside_ascii_is_an_error() {
    let error = all_tokens("x \u{e9}").unwrap_err();
    assert_eq!(error.kind, ParseErrorKind::NonAsciiByte(0xc3));
    assert_eq!(error.line_number, 1);
}

#[test]
fn half_an_operator_is_an_unexpected_character() {
    assert_eq!(all_tokens("a & b").unwrap_err().kind, ParseErrorKind::UnexpectedCharacter('&'));
    assert_eq!(all_tokens("a | b").unwrap_err().kind, ParseErrorKind::UnexpectedCharacter('|'));
    assert_eq!(all_tokens("@").unwrap_err().kind, ParseErrorKind::UnexpectedCharacter('@'));
}

#[test]
fn lexing_again_gives_the_same_tokens() {
    let source = "let x = 1.5; # note\nloop { f(x, \"s\") ; break; }";
    assert_eq!(all_tokens(source).unwrap(), all_tokens(source).unwrap());
    let copy = source.to_string();
    assert_eq!(all_tokens(source).unwrap(), all_tokens(&copy).unwrap());
    assert_eq!(all_tokens("a $ b").unwrap_err(), all_tokens("a $ b").unwrap_err());
}

#[test]
fn binding_powers_follow_the_table() {
    assert_eq!(Symbol::Add.prefix_bp(), Some(((), 9)));
    assert_eq!(Symbol::Sub.prefix_bp(), Some(((), 9)));
    assert_eq!(Symbol::No.prefix_bp(), Some(((), 9)));
    assert_eq!(Symbol::Mul.prefix_bp(), None);
    assert_eq!(Symbol::SquareLeft.postfix_bp(), Some((10, ())));
    assert_eq!(Symbol::ParenLeft.postfix_bp(), Some((10, ())));
    assert_eq!(Symbol::Dot.postfix_bp(), None);
    assert_eq!(Symbol::Or.infix_bp(), Some((1, 2)));
    assert_eq!(Symbol::And.infix_bp(), Some((1, 2)));
    assert_eq!(Symbol::EqEq.infix_bp(), Some((3, 4)));
    assert_eq!(Symbol::NoEq.infix_bp(), Some((3, 4)));
    assert_eq!(Symbol::Lt.infix_bp(), Some((3, 4)));
    assert_eq!(Symbol::LtEq.infix_bp(), Some((3, 4)));
    assert_eq!(Symbol::Gt.infix_bp(), Some((3, 4)));
    assert_eq!(Symbol::GtEq.infix_bp(), Some((3, 4)));
    assert_eq!(Symbol::Add.infix_bp(), Some((5, 6)));
    assert_eq!(Symbol::Sub.infix_bp(), Some((5, 6)));
    assert_eq!(Symbol::Mul.infix_bp(), Some((7, 8)));
    assert_eq!(Symbol::Div.infix_bp(), Some((7, 8)));
    assert_eq!(Symbol::Mod.infix_bp(), Some((7, 8)));
    assert_eq!(Symbol::Dot.infix_bp(), Some((11, 12)));
    assert_eq!(Symbol::Eq.infix_bp(), None);
    assert_eq!(Symbol::Comma.infix_bp(), None);
}

#[test]
fn tokens_have_names_for_messages() {
    assert_eq!(Token::True.to_string(), "keyword 'true'");
    assert_eq!(Token::While.to_string(), "keyword 'while'");
    assert_eq!(name("abc").to_string(), "identifier 'abc'");
    assert_eq!(Token::Integer(0).to_string(), "integer '0'");
    assert_eq!(Token::Integer(42).to_string(), "integer '42'");
    assert_eq!(Token::Integer(-2147483648).to_string(), "integer '-2147483648'");
    assert_eq!(Token::Integer(2147483647).to_string(), "integer '2147483647'");
    assert_eq!(Token::Float(Float("1.5".to_string())).to_string(), "float '1.5'");
    assert_eq!(Token::String("hi".to_string()).to_string(), "string \"hi\"");
    assert_eq!(Token::Eof.to_string(), "end of file");
    assert_eq!(Token::Symbol(Symbol::NoEq).to_string(), "symbol '!='");
    assert_eq!(Token::Symbol(Symbol::CurlyLeft).to_string(), "symbol '{'");
}

#[test]
fn errors_are_messages_with_a_line() {
    let error = ParseError {
        source_file: None,
        line_number: 12,
        kind: ParseErrorKind::UnexpectedCharacter('$'),
    };
    assert_eq!(error.to_string(), "<source>:12 - Unexpected character '$'\n");
    let error = ParseError {
        source_file: Some("main.mill".to_string()),
        line_number: 3,
        kind: ParseErrorKind::NonAsciiByte(0xc3),
    };
    assert_eq!(
        error.to_string(),
        "main.mill:3 - Non ASCII byte: 0xC3\n    note: This is allowed in comments and string literals\n"
    );
    let error = ParseError {
        source_file: None,
        line_number: 1,
        kind: ParseErrorKind::NonAsciiByte(0x0a),
    };
    assert!(error.to_string().starts_with("<source>:1 - Non ASCII byte: 0xA\n"));
    let error = ParseError {
        source_file: None,
        line_number: 1,
        kind: ParseErrorKind::UnexpectedToken {
            expected: "identifier",
            found: Token::Symbol(Symbol::Eq),
        },
    };
    assert_eq!(error.to_string(), "<source>:1 - Expected identifier, found symbol '='\n");
    let error = all_tokens("\n\n2147483648").unwrap_err();
    assert_eq!(
        error.to_string(),
        "<source>:3 - Integer literal too large (2147483648)\n    note: integer literals must be in the range [-2147483648, 2147483647]\n"
    );
    let error = ParseError {
        source_file: None,
        line_number: 100,
        kind: ParseErrorKind::ExpressionNotAssignable,
    };
    assert_eq!(error.to_string(), "<source>:100 - Expression is not assignable\n");
    let error =
        ParseError { source_file: None, line_number: 7, kind: ParseErrorKind::UnterminatedBlock };
    assert_eq!(error.to_string(), "<source>:7 - Unterminated block\n");
}
