use mill::ast::{
    Ast, BinaryOperation, Expression, Float, Identifier, Lvalue, Statement, UnaryOperation,
};
use mill::error::{ParseError, ParseErrorKind};
use mill::expression::{parse_expression, parse_expression_bp};
use mill::lexer::Lexer;
use mill::statement::{parse, parse_block, parse_file, parse_statement, try_as_lvalue};
use mill::token::{Symbol, Token};

fn expr(source: &str) -> Result<Expression, ParseError> {
    let mut lexer = Lexer::new(source);
    parse_expression(&mut lexer)
}

fn var(text: &str) -> Expression {
    Expression::Identifier(Identifier(text.to_string()))
}

fn id(text: &str) -> Identifier {
    Identifier(text.to_string())
}

fn num(n: i32) -> Expression {
    Expression::Integer(n)
}

fn binary(lhs: Expression, operation: BinaryOperation, rhs: Expression) -> Expression {
    Expression::BinaryOperation(Box::new((lhs, rhs)), operation)
}

fn unexpected(line: usize, expected: &'static str, found: Token) -> ParseError {
    ParseError {
        source_file: None,
        line_number: line,
        kind: ParseErrorKind::UnexpectedToken { expected, found },
    }
}

#[test]
fn literals_parse_to_themselves() {
    assert_eq!(expr("true").unwrap(), Expression::True);
    assert_eq!(expr("false").unwrap(), Expression::False);
    assert_eq!(expr("null").unwrap(), Expression::Null);
    assert_eq!(expr("x").unwrap(), var("x"));
    assert_eq!(expr("42").unwrap(), num(42));
    assert_eq!(expr("-42").unwrap(), num(-42));
    assert_eq!(expr("1.5").unwrap(), Expression::Float(Float("1.5".to_string())));
    assert_eq!(expr("\"s\"").unwrap(), Expression::String("s".to_string()));
}

#[test]
fn multiplication_binds_tighter_than_addition() {
    assert_eq!(
        expr("1 + 2 * 3").unwrap(),
        binary(num(1), BinaryOperation::Add, binary(num(2), BinaryOperation::Mul, num(3)))
    );
    assert_eq!(
        expr("1 * 2 + 3").unwrap(),
        binary(binary(num(1), BinaryOperation::Mul, num(2)), BinaryOperation::Add, num(3))
    );
    assert_eq!(
        expr("(1 + 2) * 3").unwrap(),
        binary(binary(num(1), BinaryOperation::Add, num(2)), BinaryOperation::Mul, num(3))
    );
}

#[test]
fn operators_of_one_level_group_to_the_left() {
    assert_eq!(
        expr("a - b - c").unwrap(),
        binary(binary(var("a"), BinaryOperation::Sub, var("b")), BinaryOperation::Sub, var("c"))
    );
    assert_eq!(
        expr("a / b % c").unwrap(),
        binary(binary(var("a"), BinaryOperation::Div, var("b")), BinaryOperation::Mod, var("c"))
    );
}

#[test]
fn comparison_binds_tighter_than_logic() {
    assert_eq!(
        expr("a < b && c >= d || e != f").unwrap(),
        binary(
            binary(
                binary(var("a"), BinaryOperation::Lt, var("b")),
                BinaryOperation::And,
                binary(var("c"), BinaryOperation::GtEq, var("d")),
            ),
            BinaryOperation::Or,
            binary(var("e"), BinaryOperation::NoEq, var("f")),
        )
    );
    assert_eq!(
        expr("a + 1 == b").unwrap(),
        binary(binary(var("a"), BinaryOperation::Add, num(1)), BinaryOperation::Eq, var("b"))
    );
    assert_eq!(
        expr("a <= b > c").unwrap(),
        binary(binary(var("a"), BinaryOperation::LtEq, var("b")), BinaryOperation::Gt, var("c"))
    );
}

#[test]
fn prefix_operators_bind_tighter_than_infix() {
    assert_eq!(
        expr("- a + b").unwrap(),
        binary(
            Expression::UnaryOperation(Box::new(var("a")), UnaryOperation::Neg),
            BinaryOperation::Add,
            var("b"),
        )
    );
    assert_eq!(
        expr("!a && b").unwrap(),
        binary(
            Expression::UnaryOperation(Box::new(var("a")), UnaryOperation::Not),
            BinaryOperation::And,
            var("b"),
        )
    );
    assert_eq!(
        expr("-a.b").unwrap(),
        Expression::UnaryOperation(
            Box::new(Expression::Member(Box::new(var("a")), id("b"))),
            UnaryOperation::Neg,
        )
    );
    assert_eq!(
        expr("-a[0]").unwrap(),
        Expression::UnaryOperation(
            Box::new(binary(var("a"), BinaryOperation::Index, num(0))),
            UnaryOperation::Neg,
        )
    );
    assert_eq!(
        expr("!!a").unwrap(),
        Expression::UnaryOperation(
            Box::new(Expression::UnaryOperation(Box::new(var("a")), UnaryOperation::Not)),
            UnaryOperation::Not,
        )
    );
}

#[test]
fn a_plus_in_front_starts_no_expression() {
    assert_eq!(
        expr("+a").unwrap_err(),
        unexpected(1, "start of expression", Token::Symbol(Symbol::Add))
    );
}

#[test]
fn members_calls_and_indices_chain_to_the_left() {
    assert_eq!(
        expr("a.b.c()").unwrap(),
        Expression::Call(
            Box::new(Expression::Member(
                Box::new(Expression::Member(Box::new(var("a")), id("b"))),
                id("c"),
            )),
            vec![],
        )
    );
    assert_eq!(
        expr("f(1)(2)[3]").unwrap(),
        binary(
            Expression::Call(
                Box::new(Expression::Call(Box::new(var("f")), vec![num(1)])),
                vec![num(2)],
            ),
            BinaryOperation::Index,
            num(3),
        )
    );
    assert_eq!(
        expr("a + f(b, c + 1,)").unwrap(),
        binary(
            var("a"),
            BinaryOperation::Add,
            Expression::Call(
                Box::new(var("f")),
                vec![var("b"), binary(var("c"), BinaryOperation::Add, num(1))],
            ),
        )
    );
}

#[test]
fn a_member_is_an_identifier() {
    assert_eq!(expr("a.1").unwrap_err(), unexpected(1, "identifier", Token::Integer(1)));
    assert_eq!(
        expr("a.(b)").unwrap_err(),
        unexpected(1, "identifier", Token::Symbol(Symbol::ParenLeft))
    );
}

#[test]
fn array_literals_hold_expressions() {
    assert_eq!(expr("[]").unwrap(), Expression::Array(vec![]));
    assert_eq!(expr("[1]").unwrap(), Expression::Array(vec![num(1)]));
    assert_eq!(
        expr("[1, a + 2, [3],]").unwrap(),
        Expression::Array(vec![
            num(1),
            binary(var("a"), BinaryOperation::Add, num(2)),
            Expression::Array(vec![num(3)]),
        ])
    );
    assert_eq!(
        expr("[1, 2").unwrap_err(),
        unexpected(1, "closing square bracket", Token::Eof)
    );
    assert_eq!(
        expr("[1; 2]").unwrap_err(),
        unexpected(1, "closing square bracket", Token::Symbol(Symbol::Semicolon))
    );
}

#[test]
fn map_literals_hold_pairs_of_expressions() {
    assert_eq!(expr("{}").unwrap(), Expression::Mapping(vec![]));
    assert_eq!(
        expr("{1: \"a\", a + 1: [2], [\"k\"]: x,}").unwrap(),
        Expression::Mapping(vec![
            (num(1), Expression::String("a".to_string())),
            (binary(var("a"), BinaryOperation::Add, num(1)), Expression::Array(vec![num(2)])),
            (Expression::Array(vec![Expression::String("k".to_string())]), var("x")),
        ])
    );
    assert_eq!(
        expr("{1 2}").unwrap_err(),
        unexpected(1, "operator or end of expression", Token::Integer(2))
    );
    assert_eq!(
        expr("{1, 2}").unwrap_err(),
        unexpected(1, "colon", Token::Symbol(Symbol::Comma))
    );
    assert_eq!(
        expr("{1: 2; }").unwrap_err(),
        unexpected(1, "comma or closing curly bracket", Token::Symbol(Symbol::Semicolon))
    );
    assert_eq!(expr("{1: 2,\n").unwrap_err(), unexpected(2, "closing curly bracket", Token::Eof));
    assert_eq!(expr("{").unwrap_err(), unexpected(1, "closing curly bracket", Token::Eof));
}

#[test]
fn function_literals_have_parameters_and_a_body() {
    assert_eq!(expr("fn() {}").unwrap(), Expression::Function(vec![], vec![]));
    assert_eq!(
        expr("fn(a, b,) { return a + b; }").unwrap(),
        Expression::Function(
            vec![id("a"), id("b")],
            vec![Statement::Return(binary(var("a"), BinaryOperation::Add, var("b")))],
        )
    );
    assert_eq!(expr("fn {}").unwrap_err(), unexpected(1, "parameter list", Token::Symbol(Symbol::CurlyLeft)));
    assert_eq!(expr("fn(1) {}").unwrap_err(), unexpected(1, "identifier", Token::Integer(1)));
    assert_eq!(
        expr("fn(a b) {}").unwrap_err(),
        unexpected(1, "closing parenthesis", Token::Identifier(id("b")))
    );
    assert_eq!(expr("fn(a) a").unwrap_err(), unexpected(1, "block", Token::Identifier(id("a"))));
}

#[test]
fn brackets_have_to_close() {
    assert_eq!(expr("(1 + 2").unwrap_err(), unexpected(1, "closing parenthesis", Token::Eof));
    assert_eq!(
        expr("a[1)").unwrap_err(),
        unexpected(1, "closing square bracket", Token::Symbol(Symbol::ParenRight))
    );
    assert_eq!(
        expr("f(1]").unwrap_err(),
        unexpected(1, "closing parenthesis", Token::Symbol(Symbol::SquareRight))
    );
}

#[test]
fn what_cannot_start_an_expression_is_refused() {
    assert_eq!(expr("").unwrap_err(), unexpected(1, "start of expression", Token::Eof));
    assert_eq!(
        expr("\n)").unwrap_err(),
        unexpected(2, "start of expression", Token::Symbol(Symbol::ParenRight))
    );
    assert_eq!(expr("1 + let").unwrap_err(), unexpected(1, "start of expression", Token::Let));
    assert_eq!(
        expr("a b").unwrap_err(),
        unexpected(1, "operator or end of expression", Token::Identifier(id("b")))
    );
}

#[test]
fn lexical_errors_pass_through_the_parser() {
    assert_eq!(
        expr("1 + $").unwrap_err(),
        ParseError {
            source_file: None,
            line_number: 1,
            kind: ParseErrorKind::UnexpectedCharacter('$'),
        }
    );
    assert_eq!(
        parse("let x = 1;\nlet y = \u{e9};").unwrap_err(),
        ParseError { source_file: None, line_number: 2, kind: ParseErrorKind::NonAsciiByte(0xc3) }
    );
}

#[test]
fn an_expression_stops_before_what_binds_too_loosely() {
    let mut lexer = Lexer::new("a * b + c");
    assert_eq!(
        parse_expression_bp(&mut lexer, 7).unwrap(),
        binary(var("a"), BinaryOperation::Mul, var("b"))
    );
    assert_eq!(lexer.next().unwrap(), Token::Symbol(Symbol::Add));
    let mut lexer = Lexer::new("a ; b");
    assert_eq!(parse_expression(&mut lexer).unwrap(), var("a"));
    assert_eq!(lexer.next().unwrap(), Token::Symbol(Symbol::Semicolon));
}

#[test]
fn simple_statements_end_with_a_semicolon() {
    assert_eq!(parse("break;").unwrap(), Ast(vec![Statement::Break]));
    assert_eq!(parse("continue;").unwrap(), Ast(vec![Statement::Continue]));
    assert_eq!(parse("return;").unwrap(), Ast(vec![Statement::Return(Expression::Null)]));
    assert_eq!(parse("return 1;").unwrap(), Ast(vec![Statement::Return(num(1))]));
    assert_eq!(parse("f(x);").unwrap(), Ast(vec![Statement::UnusedExpression(
        Expression::Call(Box::new(var("f")), vec![var("x")]),
    )]));
    assert_eq!(parse("break").unwrap_err(), unexpected(1, "semicolon", Token::Eof));
    assert_eq!(
        parse("return 1 }").unwrap_err(),
        unexpected(1, "semicolon", Token::Symbol(Symbol::CurlyRight))
    );
    assert_eq!(
        parse("x\n}").unwrap_err(),
        unexpected(2, "';' or '='", Token::Symbol(Symbol::CurlyRight))
    );
}

#[test]
fn declarations_may_lack_an_initializer() {
    assert_eq!(
        parse("let x; let y = x + 1;").unwrap(),
        Ast(vec![
            Statement::Declaration { name: id("x"), initializer: Expression::Null },
            Statement::Declaration {
                name: id("y"),
                initializer: binary(var("x"), BinaryOperation::Add, num(1)),
            },
        ])
    );
    assert_eq!(
        parse("let x 1;").unwrap_err(),
        unexpected(1, "semicolon or initializer", Token::Integer(1))
    );
}

#[test]
fn a_declaration_without_a_name_is_refused_on_its_line() {
    assert_eq!(
        parse("let = 5;").unwrap_err(),
        unexpected(1, "identifier", Token::Symbol(Symbol::Eq))
    );
    assert_eq!(
        parse("let a = 1;\n\nlet = 5;\nlet $ = 1;").unwrap_err(),
        unexpected(3, "identifier", Token::Symbol(Symbol::Eq))
    );
}

#[test]
fn assignments_take_identifiers_members_and_indices() {
    assert_eq!(
        parse("x = 1; a.b = 2; a[0] = 3;").unwrap(),
        Ast(vec![
            Statement::Assignment { lvalue: Lvalue::Identifier(id("x")), value: num(1) },
            Statement::Assignment {
                lvalue: Lvalue::Member(Box::new(var("a")), id("b")),
                value: num(2),
            },
            Statement::Assignment {
                lvalue: Lvalue::Index(Box::new((var("a"), num(0)))),
                value: num(3),
            },
        ])
    );
}

#[test]
fn other_expressions_are_not_assignable() {
    let refused = ParseError {
        source_file: None,
        line_number: 2,
        kind: ParseErrorKind::ExpressionNotAssignable,
    };
    assert_eq!(parse("\n1 = 2;").unwrap_err(), refused);
    assert_eq!(parse("\nf() = 2;").unwrap_err(), refused);
    assert_eq!(parse("\na + b = 2;").unwrap_err(), refused);
    let lexer = Lexer::new("");
    assert_eq!(
        try_as_lvalue(var("x"), &lexer).unwrap(),
        Lvalue::Identifier(id("x"))
    );
    assert_eq!(
        try_as_lvalue(num(1), &lexer).unwrap_err().kind,
        ParseErrorKind::ExpressionNotAssignable
    );
    assert_eq!(
        try_as_lvalue(binary(var("a"), BinaryOperation::Add, num(1)), &lexer).unwrap_err().kind,
        ParseErrorKind::ExpressionNotAssignable
    );
}

#[test]
fn if_chains_become_a_list_of_branches() {
    assert_eq!(
        parse("if a { x; }").unwrap(),
        Ast(vec![Statement::If {
            branches: vec![(var("a"), vec![Statement::UnusedExpression(var("x"))])],
        }])
    );
    assert_eq!(
        parse("if a { } else if b { break; } else if c { } else { return; } x;").unwrap(),
        Ast(vec![
            Statement::If {
                branches: vec![
                    (var("a"), vec![]),
                    (var("b"), vec![Statement::Break]),
                    (var("c"), vec![]),
                    (Expression::True, vec![Statement::Return(Expression::Null)]),
                ],
            },
            Statement::UnusedExpression(var("x")),
        ])
    );
    assert_eq!(
        parse("if a { } else b").unwrap_err(),
        unexpected(1, "block", Token::Identifier(id("b")))
    );
}

#[test]
fn loops_need_no_semicolon() {
    assert_eq!(
        parse("loop { break; } while a < 1 { continue; } for i in xs { } { let x; }").unwrap(),
        Ast(vec![
            Statement::Loop { body: vec![Statement::Break] },
            Statement::While {
                condition: binary(var("a"), BinaryOperation::Lt, num(1)),
                body: vec![Statement::Continue],
            },
            Statement::For { loop_var: id("i"), iterator: var("xs"), body: vec![] },
            Statement::Block {
                body: vec![Statement::Declaration { name: id("x"), initializer: Expression::Null }],
            },
        ])
    );
    assert_eq!(parse("for 1 in x {}").unwrap_err(), unexpected(1, "identifier", Token::Integer(1)));
    assert_eq!(
        parse("for i of x {}").unwrap_err(),
        unexpected(1, "keyword 'in'", Token::Identifier(id("of")))
    );
    assert_eq!(parse("loop x").unwrap_err(), unexpected(1, "block", Token::Identifier(id("x"))));
}

#[test]
fn a_block_without_end_is_its_own_error() {
    let unterminated =
        ParseError { source_file: None, line_number: 3, kind: ParseErrorKind::UnterminatedBlock };
    assert_eq!(parse("loop {\n x;\n").unwrap_err(), unterminated);
    assert_eq!(parse("if a {\n {\n").unwrap_err(), unterminated);
    let mut lexer = Lexer::new("{ a; ");
    assert_eq!(parse_block(&mut lexer).unwrap_err().kind, ParseErrorKind::UnterminatedBlock);
}

#[test]
fn a_block_is_a_sequence_of_statements() {
    let mut lexer = Lexer::new("{ a; { } b = 1; } rest");
    assert_eq!(
        parse_block(&mut lexer).unwrap(),
        vec![
            Statement::UnusedExpression(var("a")),
            Statement::Block { body: vec![] },
            Statement::Assignment { lvalue: Lvalue::Identifier(id("b")), value: num(1) },
        ]
    );
    assert_eq!(lexer.next().unwrap(), Token::Identifier(id("rest")));
    let mut lexer = Lexer::new("a; }");
    assert_eq!(
        parse_block(&mut lexer).unwrap_err(),
        unexpected(1, "block", Token::Identifier(id("a")))
    );
}

#[test]
fn one_statement_is_taken_at_a_time() {
    let mut lexer = Lexer::new("let a = 1; b;");
    assert_eq!(
        parse_statement(&mut lexer).unwrap(),
        Statement::Declaration { name: id("a"), initializer: num(1) }
    );
    assert_eq!(parse_statement(&mut lexer).unwrap(), Statement::UnusedExpression(var("b")));
    assert_eq!(
        parse_statement(&mut lexer).unwrap_err(),
        unexpected(1, "start of expression", Token::Eof)
    );
    let mut lexer = Lexer::new("a; b;");
    assert_eq!(
        parse_file(&mut lexer).unwrap(),
        vec![Statement::UnusedExpression(var("a")), Statement::UnusedExpression(var("b"))]
    );
}

#[test]
fn parsing_stops_at_the_first_error() {
    assert_eq!(
        parse("let = 5; let = 6; $").unwrap_err(),
        unexpected(1, "identifier", Token::Symbol(Symbol::Eq))
    );
    assert_eq!(
        parse("a;\n}\n$").unwrap_err(),
        unexpected(2, "start of expression", Token::Symbol(Symbol::CurlyRight))
    );
}

#[test]
fn copies_of_a_tree_are_equal_to_it() {
    let ast = parse(
        "let f = fn(a, b) { if a < b { return {1: [a, b.c]}; } else { loop { break; } } }; \
         while !x { for i in y { x[0] = -f(1.5, \"s\"); continue; } }",
    )
    .unwrap();
    assert_eq!(ast.clone(), ast);
    assert_eq!(ast.0[0].clone(), ast.0[0]);
}
