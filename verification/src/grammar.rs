//! The grammar: what a sequence of tokens parses to, as a function of the
//! cursor that a lexer has before it.

use crate::ast::{
    BinaryOperation, ExpressionView, LvalueView, StatementView, UnaryOperation,
};
use crate::error::{error_at, unexpected, ParseErrorKindView, ParseErrorView};
use crate::lexical::Cursor;
use crate::token::{Symbol, TokenView};
use vstd::prelude::*;

verus! {

/// The outcome of parsing one construct, and the cursor behind it.
pub struct Parsed<T> {
    pub result: Result<T, ParseErrorView>,
    pub cursor: Cursor,
}

pub open spec fn done<T>(value: T, cursor: Cursor) -> Parsed<T> {
    Parsed { result: Ok(value), cursor }
}

pub open spec fn fail<T>(error: ParseErrorView, cursor: Cursor) -> Parsed<T> {
    Parsed { result: Err(error), cursor }
}

/// Takes the next token.
pub open spec fn take(c: Cursor) -> Parsed<TokenView> {
    Parsed { result: c.front(), cursor: c.advanced() }
}

/// Looks at the next token.
pub open spec fn look(c: Cursor) -> Parsed<TokenView> {
    Parsed { result: c.front(), cursor: c.peeked() }
}

/// Takes the next token, which has to be `wanted`.
pub open spec fn expect(c: Cursor, wanted: TokenView, expected: Seq<char>) -> Parsed<()> {
    let t = take(c);
    match t.result {
        Err(e) => fail(e, t.cursor),
        Ok(token) => if token == wanted {
            done((), t.cursor)
        } else {
            fail(unexpected(t.cursor.line, expected, token), t.cursor)
        },
    }
}

/// The cursor behind a nested construct that started at `limit` or behind
/// it. Parsing never moves backwards, so this is `c` itself; that it has at
/// most as many tokens to come as `limit` is what lets the functions below
/// recurse on it.
pub open spec fn resume(limit: Cursor, c: Cursor) -> Cursor {
    if c.pending.len() <= limit.pending.len() {
        c
    } else {
        limit
    }
}

/// The binary operation that an infix symbol stands for.
pub open spec fn binary_of(op: Symbol) -> BinaryOperation {
    match op {
        Symbol::Sub => BinaryOperation::Sub,
        Symbol::Mul => BinaryOperation::Mul,
        Symbol::Div => BinaryOperation::Div,
        Symbol::Mod => BinaryOperation::Mod,
        Symbol::EqEq => BinaryOperation::Eq,
        Symbol::NoEq => BinaryOperation::NoEq,
        Symbol::Lt => BinaryOperation::Lt,
        Symbol::LtEq => BinaryOperation::LtEq,
        Symbol::Gt => BinaryOperation::Gt,
        Symbol::GtEq => BinaryOperation::GtEq,
        Symbol::And => BinaryOperation::And,
        Symbol::Or => BinaryOperation::Or,
        _ => BinaryOperation::Add,
    }
}

/// The assignment target that an expression is, if it is one.
pub open spec fn as_lvalue(e: ExpressionView) -> Option<LvalueView> {
    match e {
        ExpressionView::Identifier(name) => Some(LvalueView::Identifier(name)),
        ExpressionView::Member(object, field) => Some(LvalueView::Member(object, field)),
        ExpressionView::BinaryOperation(collection, key, BinaryOperation::Index) => Some(
            LvalueView::Index(collection, key),
        ),
        _ => None,
    }
}

/// A full expression.
pub open spec fn expression(c: Cursor) -> Parsed<ExpressionView>
    decreases c.pending.len(), 2nat,
{
    expression_bp(c, 0)
}

/// An expression whose operators all bind at least as tightly as `min_bp`.
pub open spec fn expression_bp(c: Cursor, min_bp: u8) -> Parsed<ExpressionView>
    decreases c.pending.len(), 1nat,
{
    let first = primary(c);
    match first.result {
        Err(e) => fail(e, first.cursor),
        Ok(lhs) => operators(resume(c, first.cursor), lhs, min_bp),
    }
}

/// A literal, a name, a bracketed construct, a function or an operand with
/// a prefix operator.
pub open spec fn primary(c: Cursor) -> Parsed<ExpressionView>
    decreases c.pending.len(), 0nat,
{
    let t = take(c);
    let c1 = t.cursor;
    match t.result {
        Err(e) => fail(e, c1),
        Ok(TokenView::True) => done(ExpressionView::True, c1),
        Ok(TokenView::False) => done(ExpressionView::False, c1),
        Ok(TokenView::Null) => done(ExpressionView::Null, c1),
        Ok(TokenView::Identifier(name)) => done(ExpressionView::Identifier(name), c1),
        Ok(TokenView::Integer(n)) => done(ExpressionView::Integer(n), c1),
        Ok(TokenView::Float(f)) => done(ExpressionView::Float(f), c1),
        Ok(TokenView::String(s)) => done(ExpressionView::String(s), c1),
        Ok(TokenView::Symbol(Symbol::ParenLeft)) => {
            let inner = expression(c1);
            match inner.result {
                Err(e) => fail(e, inner.cursor),
                Ok(e) => {
                    let close = expect(
                        resume(c1, inner.cursor),
                        TokenView::Symbol(Symbol::ParenRight),
                        "closing parenthesis"@,
                    );
                    match close.result {
                        Err(error) => fail(error, close.cursor),
                        Ok(_) => done(e, close.cursor),
                    }
                },
            }
        },
        Ok(TokenView::Symbol(Symbol::SquareLeft)) => {
            let items = array_items(c1, Seq::empty());
            match items.result {
                Err(e) => fail(e, items.cursor),
                Ok(values) => {
                    let close = expect(
                        items.cursor,
                        TokenView::Symbol(Symbol::SquareRight),
                        "closing square bracket"@,
                    );
                    match close.result {
                        Err(error) => fail(error, close.cursor),
                        Ok(_) => done(ExpressionView::Array(values), close.cursor),
                    }
                },
            }
        },
        Ok(TokenView::Symbol(Symbol::CurlyLeft)) => {
            let entries = map_entries(c1, Seq::empty());
            match entries.result {
                Err(e) => fail(e, entries.cursor),
                Ok(pairs) => done(ExpressionView::Mapping(pairs), entries.cursor),
            }
        },
        Ok(TokenView::Symbol(Symbol::Sub)) => {
            let operand = expression_bp(c1, 9);
            match operand.result {
                Err(e) => fail(e, operand.cursor),
                Ok(e) => done(
                    ExpressionView::UnaryOperation(Box::new(e), UnaryOperation::Neg),
                    operand.cursor,
                ),
            }
        },
        Ok(TokenView::Symbol(Symbol::No)) => {
            let operand = expression_bp(c1, 9);
            match operand.result {
                Err(e) => fail(e, operand.cursor),
                Ok(e) => done(
                    ExpressionView::UnaryOperation(Box::new(e), UnaryOperation::Not),
                    operand.cursor,
                ),
            }
        },
        Ok(TokenView::Fn) => {
            let open = expect(c1, TokenView::Symbol(Symbol::ParenLeft), "parameter list"@);
            match open.result {
                Err(e) => fail(e, open.cursor),
                Ok(_) => {
                    let names = parameters(open.cursor, Seq::empty());
                    match names.result {
                        Err(e) => fail(e, names.cursor),
                        Ok(list) => {
                            let close = expect(
                                names.cursor,
                                TokenView::Symbol(Symbol::ParenRight),
                                "closing parenthesis"@,
                            );
                            match close.result {
                                Err(e) => fail(e, close.cursor),
                                Ok(_) => {
                                    let body = block(resume(c1, close.cursor));
                                    match body.result {
                                        Err(e) => fail(e, body.cursor),
                                        Ok(statements) => done(
                                            ExpressionView::Function(list, statements),
                                            body.cursor,
                                        ),
                                    }
                                },
                            }
                        },
                    }
                },
            }
        },
        Ok(token) => fail(unexpected(c1.line, "start of expression"@, token), c1),
    }
}

/// The items of an array literal, behind its opening bracket.
pub open spec fn array_items(c: Cursor, items: Seq<ExpressionView>) -> Parsed<
    Seq<ExpressionView>,
>
    decreases c.pending.len(), 3nat,
{
    let l = look(c);
    match l.result {
        Err(e) => fail(e, l.cursor),
        Ok(TokenView::Eof) => done(items, l.cursor),
        Ok(TokenView::Symbol(Symbol::SquareRight)) => done(items, l.cursor),
        Ok(_) => {
            let item = expression(l.cursor);
            match item.result {
                Err(e) => fail(e, item.cursor),
                Ok(value) => {
                    let more = look(resume(l.cursor, item.cursor));
                    match more.result {
                        Err(e) => fail(e, more.cursor),
                        Ok(TokenView::Symbol(Symbol::Comma)) => array_items(
                            take(more.cursor).cursor,
                            items.push(value),
                        ),
                        Ok(_) => done(items.push(value), more.cursor),
                    }
                },
            }
        },
    }
}

/// The entries of a map literal and its closing bracket.
pub open spec fn map_entries(c: Cursor, entries: Seq<(ExpressionView, ExpressionView)>) -> Parsed<
    Seq<(ExpressionView, ExpressionView)>,
>
    decreases c.pending.len(), 3nat,
{
    let l = look(c);
    match l.result {
        Err(e) => fail(e, l.cursor),
        Ok(TokenView::Eof) => fail(
            unexpected(take(l.cursor).cursor.line, "closing curly bracket"@, TokenView::Eof),
            take(l.cursor).cursor,
        ),
        Ok(TokenView::Symbol(Symbol::CurlyRight)) => done(entries, take(l.cursor).cursor),
        Ok(_) => {
            let key = expression(l.cursor);
            match key.result {
                Err(e) => fail(e, key.cursor),
                Ok(k) => {
                    let colon = expect(
                        resume(l.cursor, key.cursor),
                        TokenView::Symbol(Symbol::Colon),
                        "colon"@,
                    );
                    match colon.result {
                        Err(e) => fail(e, colon.cursor),
                        Ok(_) => {
                            let value = expression(colon.cursor);
                            match value.result {
                                Err(e) => fail(e, value.cursor),
                                Ok(v) => {
                                    let more = look(resume(colon.cursor, value.cursor));
                                    match more.result {
                                        Err(e) => fail(e, more.cursor),
                                        Ok(TokenView::Symbol(Symbol::Comma)) => map_entries(
                                            take(more.cursor).cursor,
                                            entries.push((k, v)),
                                        ),
                                        Ok(TokenView::Symbol(Symbol::CurlyRight)) => done(
                                            entries.push((k, v)),
                                            take(more.cursor).cursor,
                                        ),
                                        Ok(token) => fail(
                                            unexpected(
                                                more.cursor.line,
                                                "comma or closing curly bracket"@,
                                                token,
                                            ),
                                            more.cursor,
                                        ),
                                    }
                                },
                            }
                        },
                    }
                },
            }
        },
    }
}

/// The parameter names of a function literal, behind its opening bracket.
pub open spec fn parameters(c: Cursor, names: Seq<Seq<char>>) -> Parsed<Seq<Seq<char>>>
    decreases c.pending.len(), 0nat,
{
    let l = look(c);
    match l.result {
        Err(e) => fail(e, l.cursor),
        Ok(TokenView::Symbol(Symbol::ParenRight)) => done(names, l.cursor),
        Ok(_) => {
            let t = take(l.cursor);
            match t.result {
                Err(e) => fail(e, t.cursor),
                Ok(TokenView::Identifier(name)) => {
                    let more = look(t.cursor);
                    match more.result {
                        Err(e) => fail(e, more.cursor),
                        Ok(TokenView::Symbol(Symbol::Comma)) => parameters(
                            take(more.cursor).cursor,
                            names.push(name),
                        ),
                        Ok(_) => done(names.push(name), more.cursor),
                    }
                },
                Ok(token) => fail(unexpected(t.cursor.line, "identifier"@, token), t.cursor),
            }
        },
    }
}

/// The arguments of a call, behind its opening bracket.
pub open spec fn arguments(c: Cursor, values: Seq<ExpressionView>) -> Parsed<Seq<ExpressionView>>
    decreases c.pending.len(), 3nat,
{
    let l = look(c);
    match l.result {
        Err(e) => fail(e, l.cursor),
        Ok(TokenView::Symbol(Symbol::ParenRight)) => done(values, l.cursor),
        Ok(_) => {
            let argument = expression(l.cursor);
            match argument.result {
                Err(e) => fail(e, argument.cursor),
                Ok(value) => {
                    let more = look(resume(l.cursor, argument.cursor));
                    match more.result {
                        Err(e) => fail(e, more.cursor),
                        Ok(TokenView::Symbol(Symbol::Comma)) => arguments(
                            take(more.cursor).cursor,
                            values.push(value),
                        ),
                        Ok(_) => done(values.push(value), more.cursor),
                    }
                },
            }
        },
    }
}

/// The postfix and infix operators behind an operand, as long as they bind
/// at least as tightly as `min_bp`.
pub open spec fn operators(c: Cursor, lhs: ExpressionView, min_bp: u8) -> Parsed<ExpressionView>
    decreases c.pending.len(), 0nat,
{
    let l = look(c);
    let c0 = l.cursor;
    match l.result {
        Err(e) => fail(e, c0),
        Ok(TokenView::Eof) => done(lhs, c0),
        Ok(TokenView::Symbol(op)) => {
            let c1 = take(c0).cursor;
            if op.postfix_power() is Some {
                if op.postfix_power()->0 < min_bp {
                    done(lhs, c0)
                } else if op == Symbol::SquareLeft {
                    let key = expression(c1);
                    match key.result {
                        Err(e) => fail(e, key.cursor),
                        Ok(k) => {
                            let close = expect(
                                resume(c1, key.cursor),
                                TokenView::Symbol(Symbol::SquareRight),
                                "closing square bracket"@,
                            );
                            match close.result {
                                Err(e) => fail(e, close.cursor),
                                Ok(_) => operators(
                                    close.cursor,
                                    ExpressionView::BinaryOperation(
                                        Box::new(lhs),
                                        Box::new(k),
                                        BinaryOperation::Index,
                                    ),
                                    min_bp,
                                ),
                            }
                        },
                    }
                } else {
                    let list = arguments(c1, Seq::empty());
                    match list.result {
                        Err(e) => fail(e, list.cursor),
                        Ok(values) => {
                            let close = expect(
                                resume(c1, list.cursor),
                                TokenView::Symbol(Symbol::ParenRight),
                                "closing parenthesis"@,
                            );
                            match close.result {
                                Err(e) => fail(e, close.cursor),
                                Ok(_) => operators(
                                    close.cursor,
                                    ExpressionView::Call(Box::new(lhs), values),
                                    min_bp,
                                ),
                            }
                        },
                    }
                }
            } else if op.infix_power() is Some {
                if op.left_power() < min_bp {
                    done(lhs, c0)
                } else if op == Symbol::Dot {
                    let t = take(c1);
                    match t.result {
                        Err(e) => fail(e, t.cursor),
                        Ok(TokenView::Identifier(name)) => operators(
                            t.cursor,
                            ExpressionView::Member(Box::new(lhs), name),
                            min_bp,
                        ),
                        Ok(token) => fail(
                            unexpected(t.cursor.line, "identifier"@, token),
                            t.cursor,
                        ),
                    }
                } else {
                    let rhs = expression_bp(c1, op.right_power());
                    match rhs.result {
                        Err(e) => fail(e, rhs.cursor),
                        Ok(r) => operators(
                            resume(c1, rhs.cursor),
                            ExpressionView::BinaryOperation(
                                Box::new(lhs),
                                Box::new(r),
                                binary_of(op),
                            ),
                            min_bp,
                        ),
                    }
                }
            } else {
                done(lhs, c0)
            }
        },
        Ok(token) => fail(unexpected(c0.line, "operator or end of expression"@, token), c0),
    }
}

/// The semicolon behind a statement that needs one.
pub open spec fn terminated(s: Parsed<StatementView>) -> Parsed<StatementView> {
    match s.result {
        Err(e) => s,
        Ok(statement) => {
            let semicolon = expect(s.cursor, TokenView::Symbol(Symbol::Semicolon), "semicolon"@);
            match semicolon.result {
                Err(e) => fail(e, semicolon.cursor),
                Ok(_) => done(statement, semicolon.cursor),
            }
        },
    }
}

/// One statement, with its semicolon where it needs one.
pub open spec fn statement(c: Cursor) -> Parsed<StatementView>
    decreases c.pending.len(), 3nat,
{
    let l = look(c);
    let c0 = l.cursor;
    let c1 = take(c0).cursor;
    match l.result {
        Err(e) => fail(e, c0),
        Ok(TokenView::Break) => terminated(done(StatementView::Break, c1)),
        Ok(TokenView::Continue) => terminated(done(StatementView::Continue, c1)),
        Ok(TokenView::Return) => {
            let l2 = look(c1);
            match l2.result {
                Err(e) => fail(e, l2.cursor),
                Ok(TokenView::Symbol(Symbol::Semicolon)) => terminated(
                    done(StatementView::Return(ExpressionView::Null), l2.cursor),
                ),
                Ok(_) => {
                    let value = expression(l2.cursor);
                    match value.result {
                        Err(e) => fail(e, value.cursor),
                        Ok(v) => terminated(
                            done(StatementView::Return(v), resume(c1, value.cursor)),
                        ),
                    }
                },
            }
        },
        Ok(TokenView::Loop) => {
            let body = block(c1);
            match body.result {
                Err(e) => fail(e, body.cursor),
                Ok(statements) => done(StatementView::Loop { body: statements }, body.cursor),
            }
        },
        Ok(TokenView::Let) => {
            let t = take(c1);
            match t.result {
                Err(e) => fail(e, t.cursor),
                Ok(TokenView::Identifier(name)) => {
                    let l2 = look(t.cursor);
                    match l2.result {
                        Err(e) => fail(e, l2.cursor),
                        Ok(TokenView::Symbol(Symbol::Semicolon)) => terminated(
                            done(
                                StatementView::Declaration {
                                    name,
                                    initializer: ExpressionView::Null,
                                },
                                l2.cursor,
                            ),
                        ),
                        Ok(TokenView::Symbol(Symbol::Eq)) => {
                            let c3 = take(l2.cursor).cursor;
                            let value = expression(c3);
                            match value.result {
                                Err(e) => fail(e, value.cursor),
                                Ok(v) => terminated(
                                    done(
                                        StatementView::Declaration { name, initializer: v },
                                        resume(c3, value.cursor),
                                    ),
                                ),
                            }
                        },
                        Ok(token) => fail(
                            unexpected(l2.cursor.line, "semicolon or initializer"@, token),
                            l2.cursor,
                        ),
                    }
                },
                Ok(token) => fail(unexpected(t.cursor.line, "identifier"@, token), t.cursor),
            }
        },
        Ok(TokenView::If) => {
            let condition = expression(c1);
            match condition.result {
                Err(e) => fail(e, condition.cursor),
                Ok(test) => {
                    let body = block(resume(c1, condition.cursor));
                    match body.result {
                        Err(e) => fail(e, body.cursor),
                        Ok(statements) => {
                            let chain = else_chain(
                                resume(c1, body.cursor),
                                seq![(test, statements)],
                            );
                            match chain.result {
                                Err(e) => fail(e, chain.cursor),
                                Ok(branches) => done(StatementView::If { branches }, chain.cursor),
                            }
                        },
                    }
                },
            }
        },
        Ok(TokenView::For) => {
            let t = take(c1);
            match t.result {
                Err(e) => fail(e, t.cursor),
                Ok(TokenView::Identifier(name)) => {
                    let keyword = expect(t.cursor, TokenView::In, "keyword 'in'"@);
                    match keyword.result {
                        Err(e) => fail(e, keyword.cursor),
                        Ok(_) => {
                            let iterator = expression(keyword.cursor);
                            match iterator.result {
                                Err(e) => fail(e, iterator.cursor),
                                Ok(source) => {
                                    let body = block(resume(keyword.cursor, iterator.cursor));
                                    match body.result {
                                        Err(e) => fail(e, body.cursor),
                                        Ok(statements) => done(
                                            StatementView::For {
                                                loop_var: name,
                                                iterator: source,
                                                body: statements,
                                            },
                                            body.cursor,
                                        ),
                                    }
                                },
                            }
                        },
                    }
                },
                Ok(token) => fail(unexpected(t.cursor.line, "identifier"@, token), t.cursor),
            }
        },
        Ok(TokenView::While) => {
            let condition = expression(c1);
            match condition.result {
                Err(e) => fail(e, condition.cursor),
                Ok(test) => {
                    let body = block(resume(c1, condition.cursor));
                    match body.result {
                        Err(e) => fail(e, body.cursor),
                        Ok(statements) => done(
                            StatementView::While { condition: test, body: statements },
                            body.cursor,
                        ),
                    }
                },
            }
        },
        Ok(TokenView::Symbol(Symbol::CurlyLeft)) => {
            let body = block(c0);
            match body.result {
                Err(e) => fail(e, body.cursor),
                Ok(statements) => done(StatementView::Block { body: statements }, body.cursor),
            }
        },
        Ok(_) => {
            let target = expression(c0);
            match target.result {
                Err(e) => fail(e, target.cursor),
                Ok(e) => {
                    let l2 = look(resume(c0, target.cursor));
                    match l2.result {
                        Err(error) => fail(error, l2.cursor),
                        Ok(TokenView::Symbol(Symbol::Semicolon)) => terminated(
                            done(StatementView::UnusedExpression(e), l2.cursor),
                        ),
                        Ok(TokenView::Symbol(Symbol::Eq)) => match as_lvalue(e) {
                            None => fail(
                                error_at(
                                    l2.cursor.line,
                                    ParseErrorKindView::ExpressionNotAssignable,
                                ),
                                l2.cursor,
                            ),
                            Some(lvalue) => {
                                let c3 = take(l2.cursor).cursor;
                                let value = expression(c3);
                                match value.result {
                                    Err(error) => fail(error, value.cursor),
                                    Ok(v) => terminated(
                                        done(
                                            StatementView::Assignment { lvalue, value: v },
                                            resume(c3, value.cursor),
                                        ),
                                    ),
                                }
                            },
                        },
                        Ok(token) => fail(
                            unexpected(l2.cursor.line, "';' or '='"@, token),
                            l2.cursor,
                        ),
                    }
                },
            }
        },
    }
}

/// What follows the first branch of an `if`: any number of `else if`
/// branches and at most one `else`, which becomes a branch on `True`.
pub open spec fn else_chain(
    c: Cursor,
    branches: Seq<(ExpressionView, Seq<StatementView>)>,
) -> Parsed<Seq<(ExpressionView, Seq<StatementView>)>>
    decreases c.pending.len(), 0nat,
{
    let l = look(c);
    match l.result {
        Err(e) => fail(e, l.cursor),
        Ok(TokenView::Else) => {
            let c1 = take(l.cursor).cursor;
            let l2 = look(c1);
            match l2.result {
                Err(e) => fail(e, l2.cursor),
                Ok(TokenView::If) => {
                    let c2 = take(l2.cursor).cursor;
                    let condition = expression(c2);
                    match condition.result {
                        Err(e) => fail(e, condition.cursor),
                        Ok(test) => {
                            let body = block(resume(c2, condition.cursor));
                            match body.result {
                                Err(e) => fail(e, body.cursor),
                                Ok(statements) => else_chain(
                                    resume(c2, body.cursor),
                                    branches.push((test, statements)),
                                ),
                            }
                        },
                    }
                },
                Ok(_) => {
                    let body = block(l2.cursor);
                    match body.result {
                        Err(e) => fail(e, body.cursor),
                        Ok(statements) => done(
                            branches.push((ExpressionView::True, statements)),
                            body.cursor,
                        ),
                    }
                },
            }
        },
        Ok(_) => done(branches, l.cursor),
    }
}

/// A sequence of statements between curly brackets.
pub open spec fn block(c: Cursor) -> Parsed<Seq<StatementView>>
    decreases c.pending.len(), 0nat,
{
    let t = take(c);
    match t.result {
        Err(e) => fail(e, t.cursor),
        Ok(TokenView::Symbol(Symbol::CurlyLeft)) => block_items(t.cursor, Seq::empty()),
        Ok(token) => fail(unexpected(t.cursor.line, "block"@, token), t.cursor),
    }
}

/// The statements of a block and its closing bracket.
pub open spec fn block_items(c: Cursor, statements: Seq<StatementView>) -> Parsed<
    Seq<StatementView>,
>
    decreases c.pending.len(), 4nat,
{
    let l = look(c);
    match l.result {
        Err(e) => fail(e, l.cursor),
        Ok(TokenView::Symbol(Symbol::CurlyRight)) => done(statements, take(l.cursor).cursor),
        Ok(TokenView::Eof) => fail(
            error_at(l.cursor.line, ParseErrorKindView::UnterminatedBlock),
            l.cursor,
        ),
        Ok(_) => {
            let next = statement(l.cursor);
            match next.result {
                Err(e) => fail(e, next.cursor),
                Ok(s) => block_items(
                    resume(l.cursor.advanced(), next.cursor),
                    statements.push(s),
                ),
            }
        },
    }
}

/// Statements up to the end of the input.
pub open spec fn file_items(c: Cursor, statements: Seq<StatementView>) -> Parsed<
    Seq<StatementView>,
>
    decreases c.pending.len(), 4nat,
{
    let l = look(c);
    match l.result {
        Err(e) => fail(e, l.cursor),
        Ok(TokenView::Eof) => done(statements, l.cursor),
        Ok(_) => {
            let next = statement(l.cursor);
            match next.result {
                Err(e) => fail(e, next.cursor),
                Ok(s) => file_items(resume(l.cursor.advanced(), next.cursor), statements.push(s)),
            }
        },
    }
}

/// A whole program.
pub open spec fn program(c: Cursor) -> Parsed<Seq<StatementView>> {
    file_items(c, Seq::empty())
}

} // verus!
