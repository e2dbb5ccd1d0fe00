//! Parsing moves forward: no construct leaves more tokens to come than it
//! found, and a construct that parses takes at least one.

use crate::ast::{ExpressionView, StatementView};
use crate::grammar::{
    arguments, array_items, block, block_items, else_chain, expect, expression, expression_bp,
    file_items, look, map_entries, operators, parameters, primary, resume, statement, take,
    Parsed,
};
use crate::lexical::Cursor;
use crate::token::{Symbol, TokenView};
use vstd::prelude::*;

verus! {

/// How many tokens are still to come.
pub open spec fn left(c: Cursor) -> nat {
    c.pending.len()
}

/// The construct has not moved backwards from `c`.
pub open spec fn onward<T>(c: Cursor, p: Parsed<T>) -> bool {
    left(p.cursor) <= left(c)
}

/// The construct has not moved backwards from `c`, and if it parsed it has
/// moved forward.
pub open spec fn forward<T>(c: Cursor, p: Parsed<T>) -> bool {
    &&& left(p.cursor) <= left(c)
    &&& p.result is Ok ==> left(p.cursor) < left(c)
}

/// An expression moves forward.
pub proof fn law_expression_moves_forward(c: Cursor)
    ensures
        forward(c, expression(c)),
    decreases c.pending.len(), 2nat,
{
    lemma_expression_bp(c, 0);
}

pub proof fn lemma_expression_bp(c: Cursor, min_bp: u8)
    ensures
        forward(c, expression_bp(c, min_bp)),
    decreases c.pending.len(), 1nat,
{
    lemma_primary(c);
    let first = primary(c);
    if first.result is Ok {
        lemma_operators(first.cursor, first.result->Ok_0, min_bp);
    }
}

proof fn lemma_primary(c: Cursor)
    ensures
        forward(c, primary(c)),
    decreases c.pending.len(), 0nat,
{
    let t = take(c);
    let c1 = t.cursor;
    match t.result {
        Ok(TokenView::Symbol(Symbol::ParenLeft)) => {
            law_expression_moves_forward(c1);
        },
        Ok(TokenView::Symbol(Symbol::SquareLeft)) => {
            lemma_array_items(c1, Seq::empty());
        },
        Ok(TokenView::Symbol(Symbol::CurlyLeft)) => {
            lemma_map_entries(c1, Seq::empty());
        },
        Ok(TokenView::Symbol(Symbol::Sub)) => {
            lemma_expression_bp(c1, 9);
        },
        Ok(TokenView::Symbol(Symbol::No)) => {
            lemma_expression_bp(c1, 9);
        },
        Ok(TokenView::Fn) => {
            let open = expect(c1, TokenView::Symbol(Symbol::ParenLeft), "parameter list"@);
            if open.result is Ok {
                lemma_parameters(open.cursor, Seq::empty());
                let names = parameters(open.cursor, Seq::empty());
                if names.result is Ok {
                    let close = expect(
                        names.cursor,
                        TokenView::Symbol(Symbol::ParenRight),
                        "closing parenthesis"@,
                    );
                    if close.result is Ok {
                        law_block_moves_forward(close.cursor);
                    }
                }
            }
        },
        _ => {},
    }
}

proof fn lemma_array_items(c: Cursor, items: Seq<ExpressionView>)
    ensures
        onward(c, array_items(c, items)),
    decreases c.pending.len(), 3nat,
{
    let l = look(c);
    match l.result {
        Err(_) => {},
        Ok(TokenView::Eof) => {},
        Ok(TokenView::Symbol(Symbol::SquareRight)) => {},
        Ok(_) => {
            law_expression_moves_forward(l.cursor);
            let item = expression(l.cursor);
            if item.result is Ok {
                let more = look(item.cursor);
                match more.result {
                    Ok(TokenView::Symbol(Symbol::Comma)) => {
                        lemma_array_items(take(more.cursor).cursor, items.push(item.result->Ok_0));
                    },
                    _ => {},
                }
            }
        },
    }
}

proof fn lemma_map_entries(c: Cursor, entries: Seq<(ExpressionView, ExpressionView)>)
    ensures
        onward(c, map_entries(c, entries)),
    decreases c.pending.len(), 3nat,
{
    let l = look(c);
    match l.result {
        Err(_) => {},
        Ok(TokenView::Eof) => {},
        Ok(TokenView::Symbol(Symbol::CurlyRight)) => {},
        Ok(_) => {
            law_expression_moves_forward(l.cursor);
            let key = expression(l.cursor);
            if key.result is Ok {
                let colon = expect(key.cursor, TokenView::Symbol(Symbol::Colon), "colon"@);
                if colon.result is Ok {
                    law_expression_moves_forward(colon.cursor);
                    let value = expression(colon.cursor);
                    if value.result is Ok {
                        let more = look(value.cursor);
                        match more.result {
                            Ok(TokenView::Symbol(Symbol::Comma)) => {
                                lemma_map_entries(
                                    take(more.cursor).cursor,
                                    entries.push((key.result->Ok_0, value.result->Ok_0)),
                                );
                            },
                            _ => {},
                        }
                    }
                }
            }
        },
    }
}

proof fn lemma_parameters(c: Cursor, names: Seq<Seq<char>>)
    ensures
        onward(c, parameters(c, names)),
    decreases c.pending.len(), 0nat,
{
    let l = look(c);
    match l.result {
        Err(_) => {},
        Ok(TokenView::Symbol(Symbol::ParenRight)) => {},
        Ok(_) => {
            let t = take(l.cursor);
            match t.result {
                Ok(TokenView::Identifier(name)) => {
                    let more = look(t.cursor);
                    match more.result {
                        Ok(TokenView::Symbol(Symbol::Comma)) => {
                            lemma_parameters(take(more.cursor).cursor, names.push(name));
                        },
                        _ => {},
                    }
                },
                _ => {},
            }
        },
    }
}

proof fn lemma_arguments(c: Cursor, values: Seq<ExpressionView>)
    ensures
        onward(c, arguments(c, values)),
    decreases c.pending.len(), 3nat,
{
    let l = look(c);
    match l.result {
        Err(_) => {},
        Ok(TokenView::Symbol(Symbol::ParenRight)) => {},
        Ok(_) => {
            law_expression_moves_forward(l.cursor);
            let argument = expression(l.cursor);
            if argument.result is Ok {
                let more = look(argument.cursor);
                match more.result {
                    Ok(TokenView::Symbol(Symbol::Comma)) => {
                        lemma_arguments(
                            take(more.cursor).cursor,
                            values.push(argument.result->Ok_0),
                        );
                    },
                    _ => {},
                }
            }
        },
    }
}

proof fn lemma_operators(c: Cursor, lhs: ExpressionView, min_bp: u8)
    ensures
        onward(c, operators(c, lhs, min_bp)),
    decreases c.pending.len(), 0nat,
{
    let l = look(c);
    let c0 = l.cursor;
    match l.result {
        Ok(TokenView::Symbol(op)) => {
            let c1 = take(c0).cursor;
            if op.postfix_power() is Some {
                if op.postfix_power()->0 >= min_bp {
                    if op == Symbol::SquareLeft {
                        law_expression_moves_forward(c1);
                        let key = expression(c1);
                        if key.result is Ok {
                            let close = expect(
                                key.cursor,
                                TokenView::Symbol(Symbol::SquareRight),
                                "closing square bracket"@,
                            );
                            if close.result is Ok {
                                lemma_operators(
                                    close.cursor,
                                    ExpressionView::BinaryOperation(
                                        Box::new(lhs),
                                        Box::new(key.result->Ok_0),
                                        crate::ast::BinaryOperation::Index,
                                    ),
                                    min_bp,
                                );
                            }
                        }
                    } else {
                        lemma_arguments(c1, Seq::empty());
                        let list = arguments(c1, Seq::empty());
                        if list.result is Ok {
                            let close = expect(
                                list.cursor,
                                TokenView::Symbol(Symbol::ParenRight),
                                "closing parenthesis"@,
                            );
                            if close.result is Ok {
                                lemma_operators(
                                    close.cursor,
                                    ExpressionView::Call(Box::new(lhs), list.result->Ok_0),
                                    min_bp,
                                );
                            }
                        }
                    }
                }
            } else if op.infix_power() is Some {
                if op.left_power() >= min_bp {
                    if op == Symbol::Dot {
                        let t = take(c1);
                        match t.result {
                            Ok(TokenView::Identifier(name)) => {
                                lemma_operators(
                                    t.cursor,
                                    ExpressionView::Member(Box::new(lhs), name),
                                    min_bp,
                                );
                            },
                            _ => {},
                        }
                    } else {
                        lemma_expression_bp(c1, op.right_power());
                        let rhs = expression_bp(c1, op.right_power());
                        if rhs.result is Ok {
                            lemma_operators(
                                rhs.cursor,
                                ExpressionView::BinaryOperation(
                                    Box::new(lhs),
                                    Box::new(rhs.result->Ok_0),
                                    crate::grammar::binary_of(op),
                                ),
                                min_bp,
                            );
                        }
                    }
                }
            }
        },
        _ => {},
    }
}

/// A statement moves forward.
pub proof fn law_statement_moves_forward(c: Cursor)
    ensures
        forward(c, statement(c)),
    decreases c.pending.len(), 3nat,
{
    let l = look(c);
    let c0 = l.cursor;
    let c1 = take(c0).cursor;
    match l.result {
        Err(_) => {},
        Ok(TokenView::Break) => {},
        Ok(TokenView::Continue) => {},
        Ok(TokenView::Return) => {
            let l2 = look(c1);
            match l2.result {
                Err(_) => {},
                Ok(TokenView::Symbol(Symbol::Semicolon)) => {},
                Ok(_) => {
                    law_expression_moves_forward(l2.cursor);
                },
            }
        },
        Ok(TokenView::Loop) => {
            law_block_moves_forward(c1);
        },
        Ok(TokenView::Let) => {
            let t = take(c1);
            match t.result {
                Ok(TokenView::Identifier(name)) => {
                    let l2 = look(t.cursor);
                    match l2.result {
                        Ok(TokenView::Symbol(Symbol::Eq)) => {
                            law_expression_moves_forward(take(l2.cursor).cursor);
                        },
                        _ => {},
                    }
                },
                _ => {},
            }
        },
        Ok(TokenView::If) => {
            law_expression_moves_forward(c1);
            let condition = expression(c1);
            if condition.result is Ok {
                law_block_moves_forward(condition.cursor);
                let body = block(condition.cursor);
                if body.result is Ok {
                    lemma_else_chain(
                        body.cursor,
                        seq![(condition.result->Ok_0, body.result->Ok_0)],
                    );
                }
            }
        },
        Ok(TokenView::For) => {
            let t = take(c1);
            match t.result {
                Ok(TokenView::Identifier(name)) => {
                    let keyword = expect(t.cursor, TokenView::In, "keyword 'in'"@);
                    if keyword.result is Ok {
                        law_expression_moves_forward(keyword.cursor);
                        let iterator = expression(keyword.cursor);
                        if iterator.result is Ok {
                            law_block_moves_forward(iterator.cursor);
                        }
                    }
                },
                _ => {},
            }
        },
        Ok(TokenView::While) => {
            law_expression_moves_forward(c1);
            let condition = expression(c1);
            if condition.result is Ok {
                law_block_moves_forward(condition.cursor);
            }
        },
        Ok(TokenView::Symbol(Symbol::CurlyLeft)) => {
            law_block_moves_forward(c0);
        },
        Ok(_) => {
            law_expression_moves_forward(c0);
            let target = expression(c0);
            if target.result is Ok {
                let l2 = look(target.cursor);
                match l2.result {
                    Ok(TokenView::Symbol(Symbol::Eq)) => {
                        law_expression_moves_forward(take(l2.cursor).cursor);
                    },
                    _ => {},
                }
            }
        },
    }
}

proof fn lemma_else_chain(c: Cursor, branches: Seq<(ExpressionView, Seq<StatementView>)>)
    ensures
        onward(c, else_chain(c, branches)),
    decreases c.pending.len(), 0nat,
{
    let l = look(c);
    match l.result {
        Ok(TokenView::Else) => {
            let c1 = take(l.cursor).cursor;
            let l2 = look(c1);
            match l2.result {
                Err(_) => {},
                Ok(TokenView::If) => {
                    let c2 = take(l2.cursor).cursor;
                    law_expression_moves_forward(c2);
                    let condition = expression(c2);
                    if condition.result is Ok {
                        law_block_moves_forward(condition.cursor);
                        let body = block(condition.cursor);
                        if body.result is Ok {
                            lemma_else_chain(
                                body.cursor,
                                branches.push((condition.result->Ok_0, body.result->Ok_0)),
                            );
                        }
                    }
                },
                Ok(_) => {
                    law_block_moves_forward(l2.cursor);
                },
            }
        },
        _ => {},
    }
}

/// A block moves forward.
pub proof fn law_block_moves_forward(c: Cursor)
    ensures
        forward(c, block(c)),
    decreases c.pending.len(), 0nat,
{
    let t = take(c);
    match t.result {
        Ok(TokenView::Symbol(Symbol::CurlyLeft)) => {
            lemma_block_items(t.cursor, Seq::empty());
        },
        _ => {},
    }
}

proof fn lemma_block_items(c: Cursor, statements: Seq<StatementView>)
    ensures
        onward(c, block_items(c, statements)),
    decreases c.pending.len(), 4nat,
{
    let l = look(c);
    match l.result {
        Err(_) => {},
        Ok(TokenView::Symbol(Symbol::CurlyRight)) => {},
        Ok(TokenView::Eof) => {},
        Ok(_) => {
            law_statement_moves_forward(l.cursor);
            let next = statement(l.cursor);
            if next.result is Ok {
                lemma_block_items(next.cursor, statements.push(next.result->Ok_0));
            }
        },
    }
}

/// A program moves forward.
pub proof fn law_program_moves_forward(c: Cursor, statements: Seq<StatementView>)
    ensures
        onward(c, file_items(c, statements)),
    decreases c.pending.len(), 4nat,
{
    let l = look(c);
    match l.result {
        Err(_) => {},
        Ok(TokenView::Eof) => {},
        Ok(_) => {
            law_statement_moves_forward(l.cursor);
            let next = statement(l.cursor);
            if next.result is Ok {
                law_program_moves_forward(next.cursor, statements.push(next.result->Ok_0));
            }
        },
    }
}

/// The cursor behind a nested expression is the one that the expression
/// left: `resume` never has to hold it back.
pub proof fn law_resume_is_idle(limit: Cursor)
    ensures
        resume(limit, expression(limit).cursor) == expression(limit).cursor,
        resume(limit, statement(limit).cursor) == statement(limit).cursor,
        resume(limit, block(limit).cursor) == block(limit).cursor,
        statement(limit).result is Ok ==> resume(limit.advanced(), statement(limit).cursor)
            == statement(limit).cursor,
{
    law_expression_moves_forward(limit);
    law_statement_moves_forward(limit);
    law_block_moves_forward(limit);
}

} // verus!
