//! The statement parser, built on the expression parser.

use crate::ast::{
    branches_view, statements_view, Ast, BinaryOperation, Expression, ExpressionView, Lvalue,
    Statement, StatementView,
};
use crate::error::{error_at, ParseError, ParseErrorKind, ParseErrorKindView, ParseErrorView};
use crate::expression::{expect_symbol, parse_expression};
use crate::grammar::{as_lvalue, block, block_items, else_chain, file_items, program, statement};
use crate::lexer::Lexer;
use crate::lexical::{lexemes, Cursor};
use crate::token::{Symbol, Token, TokenView};
use vstd::prelude::*;
use vstd::string::StringSliceAdditionalSpecFns;

verus! {

/// Reads an expression as an assignment target. `lexer` gives the line for
/// the error where the expression is none.
pub fn try_as_lvalue(expression: Expression, lexer: &Lexer) -> (r: Result<Lvalue, ParseError>)
    ensures
        match r {
            Ok(lvalue) => as_lvalue(expression@) == Some(lvalue@),
            Err(e) => as_lvalue(expression@) is None && e@ == error_at(
                lexer@.line,
                ParseErrorKindView::ExpressionNotAssignable,
            ),
        },
{
    match expression {
        Expression::Identifier(name) => Ok(Lvalue::Identifier(name)),
        Expression::Member(object, field) => Ok(Lvalue::Member(object, field)),
        Expression::BinaryOperation(operands, BinaryOperation::Index) => Ok(
            Lvalue::Index(operands),
        ),
        _ => Err(lexer.error(ParseErrorKind::ExpressionNotAssignable)),
    }
}

/// Takes the semicolon behind a statement.
fn finish(lexer: &mut Lexer, statement: Statement) -> (r: Result<Statement, ParseError>)
    ensures
        final(lexer).bytes() == old(lexer).bytes(),
        final(lexer)@ == old(lexer)@.advanced(),
        match r {
            Ok(s) => crate::grammar::terminated(crate::grammar::done(statement@, old(lexer)@))
                == crate::grammar::done(s@, final(lexer)@),
            Err(e) => crate::grammar::terminated(crate::grammar::done(statement@, old(lexer)@))
                == crate::grammar::fail::<StatementView>(e@, final(lexer)@),
        },
{
    match expect_symbol(lexer, Symbol::Semicolon, "semicolon") {
        Err(e) => Err(e),
        Ok(_) => Ok(statement),
    }
}

/// A look at the next token leaves the parse of a statement as it was.
proof fn lemma_statement_peeked(c: Cursor)
    ensures
        statement(c.peeked()) == statement(c),
{
    assert(c.peeked().peeked() == c.peeked());
}

/// Parses one statement, with its semicolon where it needs one.
pub fn parse_statement(lexer: &mut Lexer) -> (r: Result<Statement, ParseError>)
    ensures
        final(lexer).bytes() == old(lexer).bytes(),
        final(lexer)@ == statement(old(lexer)@).cursor,
        final(lexer)@.pending.len() <= old(lexer)@.pending.len(),
        match r {
            Ok(s) => statement(old(lexer)@).result == Ok::<StatementView, ParseErrorView>(s@)
                && final(lexer)@.pending.len() < old(lexer)@.pending.len(),
            Err(e) => statement(old(lexer)@).result == Err::<StatementView, ParseErrorView>(e@),
        },
    decreases old(lexer)@.pending.len(), 4nat,
{
    let first = match lexer.peek() {
        Err(e) => {
            return Err(e);
        },
        Ok(token) => token,
    };
    proof {
        lemma_statement_peeked(old(lexer)@);
        assert(lexer@.peeked() == lexer@);
    }
    match first {
        Token::Break => {
            match lexer.next() {
                Err(e) => {
                    return Err(e);
                },
                Ok(_) => {},
            }
            finish(lexer, Statement::Break)
        },
        Token::Continue => {
            match lexer.next() {
                Err(e) => {
                    return Err(e);
                },
                Ok(_) => {},
            }
            finish(lexer, Statement::Continue)
        },
        Token::Return => parse_return(lexer),
        Token::Loop => {
            match lexer.next() {
                Err(e) => {
                    return Err(e);
                },
                Ok(_) => {},
            }
            match parse_block(lexer) {
                Err(e) => Err(e),
                Ok(body) => Ok(Statement::Loop { body }),
            }
        },
        Token::Let => parse_declaration(lexer),
        Token::If => parse_conditional(lexer),
        Token::For => parse_for(lexer),
        Token::While => {
            match lexer.next() {
                Err(e) => {
                    return Err(e);
                },
                Ok(_) => {},
            }
            let condition = match parse_expression(lexer) {
                Err(e) => {
                    return Err(e);
                },
                Ok(condition) => condition,
            };
            match parse_block(lexer) {
                Err(e) => Err(e),
                Ok(body) => Ok(Statement::While { condition, body }),
            }
        },
        Token::Symbol(Symbol::CurlyLeft) => {
            match parse_block(lexer) {
                Err(e) => Err(e),
                Ok(body) => Ok(Statement::Block { body }),
            }
        },
        _ => parse_simple(lexer),
    }
}

/// Parses a `return` statement.
fn parse_return(lexer: &mut Lexer) -> (r: Result<Statement, ParseError>)
    requires
        old(lexer)@.front() == Ok::<TokenView, ParseErrorView>(TokenView::Return),
    ensures
        final(lexer).bytes() == old(lexer).bytes(),
        final(lexer)@ == statement(old(lexer)@).cursor,
        final(lexer)@.pending.len() <= old(lexer)@.pending.len(),
        match r {
            Ok(s) => statement(old(lexer)@).result == Ok::<StatementView, ParseErrorView>(s@)
                && final(lexer)@.pending.len() < old(lexer)@.pending.len(),
            Err(e) => statement(old(lexer)@).result == Err::<StatementView, ParseErrorView>(e@),
        },
    decreases old(lexer)@.pending.len(), 3nat,
{
    proof {
        lemma_statement_peeked(old(lexer)@);
    }
    match lexer.next() {
        Err(e) => {
            return Err(e);
        },
        Ok(_) => {},
    }
    let value = match lexer.peek() {
        Err(e) => {
            return Err(e);
        },
        Ok(Token::Symbol(Symbol::Semicolon)) => Expression::Null,
        Ok(_) => match parse_expression(lexer) {
            Err(e) => {
                return Err(e);
            },
            Ok(value) => value,
        },
    };
    finish(lexer, Statement::Return(value))
}

/// Parses a `let` statement.
fn parse_declaration(lexer: &mut Lexer) -> (r: Result<Statement, ParseError>)
    requires
        old(lexer)@.front() == Ok::<TokenView, ParseErrorView>(TokenView::Let),
    ensures
        final(lexer).bytes() == old(lexer).bytes(),
        final(lexer)@ == statement(old(lexer)@).cursor,
        final(lexer)@.pending.len() <= old(lexer)@.pending.len(),
        match r {
            Ok(s) => statement(old(lexer)@).result == Ok::<StatementView, ParseErrorView>(s@)
                && final(lexer)@.pending.len() < old(lexer)@.pending.len(),
            Err(e) => statement(old(lexer)@).result == Err::<StatementView, ParseErrorView>(e@),
        },
    decreases old(lexer)@.pending.len(), 3nat,
{
    proof {
        lemma_statement_peeked(old(lexer)@);
    }
    match lexer.next() {
        Err(e) => {
            return Err(e);
        },
        Ok(_) => {},
    }
    let name = match lexer.next() {
        Err(e) => {
            return Err(e);
        },
        Ok(Token::Identifier(name)) => name,
        Ok(token) => {
            return Err(
                lexer.error(
                    ParseErrorKind::UnexpectedToken { expected: "identifier", found: token },
                ),
            );
        },
    };
    let initializer = match lexer.peek() {
        Err(e) => {
            return Err(e);
        },
        Ok(Token::Symbol(Symbol::Semicolon)) => Expression::Null,
        Ok(Token::Symbol(Symbol::Eq)) => {
            match lexer.next() {
                Err(e) => {
                    return Err(e);
                },
                Ok(_) => {},
            }
            match parse_expression(lexer) {
                Err(e) => {
                    return Err(e);
                },
                Ok(value) => value,
            }
        },
        Ok(token) => {
            return Err(
                lexer.error(
                    ParseErrorKind::UnexpectedToken {
                        expected: "semicolon or initializer",
                        found: token,
                    },
                ),
            );
        },
    };
    finish(lexer, Statement::Declaration { name, initializer })
}

/// Parses an `if` statement with all its branches.
fn parse_conditional(lexer: &mut Lexer) -> (r: Result<Statement, ParseError>)
    requires
        old(lexer)@.front() == Ok::<TokenView, ParseErrorView>(TokenView::If),
    ensures
        final(lexer).bytes() == old(lexer).bytes(),
        final(lexer)@ == statement(old(lexer)@).cursor,
        final(lexer)@.pending.len() <= old(lexer)@.pending.len(),
        match r {
            Ok(s) => statement(old(lexer)@).result == Ok::<StatementView, ParseErrorView>(s@)
                && final(lexer)@.pending.len() < old(lexer)@.pending.len(),
            Err(e) => statement(old(lexer)@).result == Err::<StatementView, ParseErrorView>(e@),
        },
    decreases old(lexer)@.pending.len(), 3nat,
{
    proof {
        lemma_statement_peeked(old(lexer)@);
    }
    match lexer.next() {
        Err(e) => {
            return Err(e);
        },
        Ok(_) => {},
    }
    let condition = match parse_expression(lexer) {
        Err(e) => {
            return Err(e);
        },
        Ok(condition) => condition,
    };
    let body = match parse_block(lexer) {
        Err(e) => {
            return Err(e);
        },
        Ok(body) => body,
    };
    match parse_else_chain(lexer, condition, body) {
        Err(e) => Err(e),
        Ok(branches) => Ok(Statement::If { branches }),
    }
}

/// Parses a `for` statement.
fn parse_for(lexer: &mut Lexer) -> (r: Result<Statement, ParseError>)
    requires
        old(lexer)@.front() == Ok::<TokenView, ParseErrorView>(TokenView::For),
    ensures
        final(lexer).bytes() == old(lexer).bytes(),
        final(lexer)@ == statement(old(lexer)@).cursor,
        final(lexer)@.pending.len() <= old(lexer)@.pending.len(),
        match r {
            Ok(s) => statement(old(lexer)@).result == Ok::<StatementView, ParseErrorView>(s@)
                && final(lexer)@.pending.len() < old(lexer)@.pending.len(),
            Err(e) => statement(old(lexer)@).result == Err::<StatementView, ParseErrorView>(e@),
        },
    decreases old(lexer)@.pending.len(), 3nat,
{
    proof {
        lemma_statement_peeked(old(lexer)@);
    }
    match lexer.next() {
        Err(e) => {
            return Err(e);
        },
        Ok(_) => {},
    }
    let loop_var = match lexer.next() {
        Err(e) => {
            return Err(e);
        },
        Ok(Token::Identifier(name)) => name,
        Ok(token) => {
            return Err(
                lexer.error(
                    ParseErrorKind::UnexpectedToken { expected: "identifier", found: token },
                ),
            );
        },
    };
    match lexer.next() {
        Err(e) => {
            return Err(e);
        },
        Ok(Token::In) => {},
        Ok(token) => {
            return Err(
                lexer.error(
                    ParseErrorKind::UnexpectedToken { expected: "keyword 'in'", found: token },
                ),
            );
        },
    }
    let iterator = match parse_expression(lexer) {
        Err(e) => {
            return Err(e);
        },
        Ok(iterator) => iterator,
    };
    match parse_block(lexer) {
        Err(e) => Err(e),
        Ok(body) => Ok(Statement::For { loop_var, iterator, body }),
    }
}

/// The tokens that start a statement which is an expression or an
/// assignment.
pub open spec fn starts_simple(token: TokenView) -> bool {
    match token {
        TokenView::Break
        | TokenView::Continue
        | TokenView::Return
        | TokenView::Loop
        | TokenView::Let
        | TokenView::If
        | TokenView::For
        | TokenView::While
        | TokenView::Symbol(Symbol::CurlyLeft) => false,
        _ => true,
    }
}

/// Parses an expression statement or an assignment.
fn parse_simple(lexer: &mut Lexer) -> (r: Result<Statement, ParseError>)
    requires
        old(lexer)@.front() is Ok,
        starts_simple(old(lexer)@.front()->Ok_0),
        old(lexer)@.peeked() == old(lexer)@,
    ensures
        final(lexer).bytes() == old(lexer).bytes(),
        final(lexer)@ == statement(old(lexer)@).cursor,
        final(lexer)@.pending.len() <= old(lexer)@.pending.len(),
        match r {
            Ok(s) => statement(old(lexer)@).result == Ok::<StatementView, ParseErrorView>(s@)
                && final(lexer)@.pending.len() < old(lexer)@.pending.len(),
            Err(e) => statement(old(lexer)@).result == Err::<StatementView, ParseErrorView>(e@),
        },
    decreases old(lexer)@.pending.len(), 3nat,
{
    proof {
        lemma_statement_peeked(old(lexer)@);
    }
    let target = match parse_expression(lexer) {
        Err(e) => {
            return Err(e);
        },
        Ok(target) => target,
    };
    match lexer.peek() {
        Err(e) => Err(e),
        Ok(Token::Symbol(Symbol::Semicolon)) => finish(lexer, Statement::UnusedExpression(target)),
        Ok(Token::Symbol(Symbol::Eq)) => {
            let lvalue = match try_as_lvalue(target, lexer) {
                Err(e) => {
                    return Err(e);
                },
                Ok(lvalue) => lvalue,
            };
            match lexer.next() {
                Err(e) => {
                    return Err(e);
                },
                Ok(_) => {},
            }
            let value = match parse_expression(lexer) {
                Err(e) => {
                    return Err(e);
                },
                Ok(value) => value,
            };
            finish(lexer, Statement::Assignment { lvalue, value })
        },
        Ok(token) => Err(
            lexer.error(ParseErrorKind::UnexpectedToken { expected: "';' or '='", found: token }),
        ),
    }
}

/// Parses what follows the first branch of an `if`.
fn parse_else_chain(lexer: &mut Lexer, condition: Expression, body: Vec<Statement>) -> (r: Result<
    Vec<(Expression, Vec<Statement>)>,
    ParseError,
>)
    ensures
        final(lexer).bytes() == old(lexer).bytes(),
        final(lexer)@ == else_chain(
            old(lexer)@,
            seq![(condition@, statements_view(body@))],
        ).cursor,
        final(lexer)@.pending.len() <= old(lexer)@.pending.len(),
        match r {
            Ok(branches) => else_chain(
                old(lexer)@,
                seq![(condition@, statements_view(body@))],
            ).result == Ok::<Seq<(ExpressionView, Seq<StatementView>)>, ParseErrorView>(
                branches_view(branches@),
            ),
            Err(e) => else_chain(
                old(lexer)@,
                seq![(condition@, statements_view(body@))],
            ).result == Err::<Seq<(ExpressionView, Seq<StatementView>)>, ParseErrorView>(e@),
        },
    decreases old(lexer)@.pending.len(), 0nat,
{
    let ghost start = lexer@;
    let ghost first = seq![(condition@, statements_view(body@))];
    let mut branches: Vec<(Expression, Vec<Statement>)> = Vec::new();
    branches.push((condition, body));
    assert(branches_view(branches@) =~= first);
    loop
        invariant
            lexer.bytes() == old(lexer).bytes(),
            start == old(lexer)@,
            lexer@.pending.len() <= start.pending.len(),
            else_chain(lexer@, branches_view(branches@)) == else_chain(start, first),
            first == seq![(condition@, statements_view(body@))],
        decreases lexer@.pending.len(),
    {
        match lexer.peek() {
            Err(e) => {
                return Err(e);
            },
            Ok(Token::Else) => {},
            Ok(_) => {
                return Ok(branches);
            },
        }
        match lexer.next() {
            Err(e) => {
                return Err(e);
            },
            Ok(_) => {},
        }
        let ghost so_far = branches_view(branches@);
        match lexer.peek() {
            Err(e) => {
                return Err(e);
            },
            Ok(Token::If) => {
                match lexer.next() {
                    Err(e) => {
                        return Err(e);
                    },
                    Ok(_) => {},
                }
                let test = match parse_expression(lexer) {
                    Err(e) => {
                        return Err(e);
                    },
                    Ok(test) => test,
                };
                let statements = match parse_block(lexer) {
                    Err(e) => {
                        return Err(e);
                    },
                    Ok(statements) => statements,
                };
                let ghost branch = (test@, statements_view(statements@));
                branches.push((test, statements));
                assert(branches_view(branches@) =~= so_far.push(branch));
            },
            Ok(_) => {
                let statements = match parse_block(lexer) {
                    Err(e) => {
                        return Err(e);
                    },
                    Ok(statements) => statements,
                };
                let ghost branch = (ExpressionView::True, statements_view(statements@));
                branches.push((Expression::True, statements));
                assert(branches_view(branches@) =~= so_far.push(branch));
                return Ok(branches);
            },
        }
    }
}

/// Parses a sequence of statements between curly brackets.
pub fn parse_block(lexer: &mut Lexer) -> (r: Result<Vec<Statement>, ParseError>)
    ensures
        final(lexer).bytes() == old(lexer).bytes(),
        final(lexer)@ == block(old(lexer)@).cursor,
        final(lexer)@.pending.len() <= old(lexer)@.pending.len(),
        match r {
            Ok(statements) => block(old(lexer)@).result == Ok::<
                Seq<StatementView>,
                ParseErrorView,
            >(statements_view(statements@)) && final(lexer)@.pending.len() < old(
                lexer,
            )@.pending.len(),
            Err(e) => block(old(lexer)@).result == Err::<Seq<StatementView>, ParseErrorView>(e@),
        },
    decreases old(lexer)@.pending.len(), 0nat,
{
    match lexer.next() {
        Err(e) => {
            return Err(e);
        },
        Ok(Token::Symbol(Symbol::CurlyLeft)) => {},
        Ok(token) => {
            return Err(
                lexer.error(ParseErrorKind::UnexpectedToken { expected: "block", found: token }),
            );
        },
    }
    let ghost start = lexer@;
    let mut statements: Vec<Statement> = Vec::new();
    assert(statements_view(statements@) =~= Seq::empty());
    loop
        invariant
            lexer.bytes() == old(lexer).bytes(),
            start.pending.len() < old(lexer)@.pending.len(),
            block(old(lexer)@) == block_items(start, Seq::empty()),
            lexer@.pending.len() <= start.pending.len(),
            block_items(lexer@, statements_view(statements@)) == block_items(start, Seq::empty()),
        decreases lexer@.pending.len(),
    {
        match lexer.peek() {
            Err(e) => {
                return Err(e);
            },
            Ok(Token::Symbol(Symbol::CurlyRight)) => {
                match lexer.next() {
                    Err(e) => {
                        return Err(e);
                    },
                    Ok(_) => {},
                }
                return Ok(statements);
            },
            Ok(Token::Eof) => {
                return Err(lexer.error(ParseErrorKind::UnterminatedBlock));
            },
            Ok(_) => {},
        }
        let ghost so_far = statements_view(statements@);
        match parse_statement(lexer) {
            Err(e) => {
                return Err(e);
            },
            Ok(s) => {
                statements.push(s);
                assert(statements_view(statements@) =~= so_far.push(s@));
            },
        }
    }
}

/// Parses statements up to the end of the input.
pub fn parse_file(lexer: &mut Lexer) -> (r: Result<Vec<Statement>, ParseError>)
    ensures
        final(lexer).bytes() == old(lexer).bytes(),
        final(lexer)@ == program(old(lexer)@).cursor,
        match r {
            Ok(statements) => program(old(lexer)@).result == Ok::<
                Seq<StatementView>,
                ParseErrorView,
            >(statements_view(statements@)),
            Err(e) => program(old(lexer)@).result == Err::<Seq<StatementView>, ParseErrorView>(e@),
        },
{
    let ghost start = lexer@;
    let mut statements: Vec<Statement> = Vec::new();
    assert(statements_view(statements@) =~= Seq::empty());
    loop
        invariant
            lexer.bytes() == old(lexer).bytes(),
            start == old(lexer)@,
            file_items(lexer@, statements_view(statements@)) == file_items(start, Seq::empty()),
        decreases lexer@.pending.len(),
    {
        match lexer.peek() {
            Err(e) => {
                return Err(e);
            },
            Ok(Token::Eof) => {
                return Ok(statements);
            },
            Ok(_) => {},
        }
        let ghost so_far = statements_view(statements@);
        match parse_statement(lexer) {
            Err(e) => {
                return Err(e);
            },
            Ok(s) => {
                statements.push(s);
                assert(statements_view(statements@) =~= so_far.push(s@));
            },
        }
    }
}

/// Parses a source text into a program.
pub fn parse(source: &str) -> (r: Result<Ast, ParseError>)
    ensures
        match r {
            Ok(ast) => program(lexemes(source.spec_bytes())).result == Ok::<
                Seq<StatementView>,
                ParseErrorView,
            >(ast@),
            Err(e) => program(lexemes(source.spec_bytes())).result == Err::<
                Seq<StatementView>,
                ParseErrorView,
            >(e@),
        },
{
    let mut lexer = Lexer::new(source);
    match parse_file(&mut lexer) {
        Err(e) => Err(e),
        Ok(statements) => Ok(Ast(statements)),
    }
}

} // verus!
