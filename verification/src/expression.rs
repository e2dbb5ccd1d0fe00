//! The expression parser, which climbs by binding power.

use crate::ast::{
    entries_view, expressions_view, identifiers_view, BinaryOperation, Expression,
    ExpressionView, Identifier, UnaryOperation,
};
use crate::error::{ParseError, ParseErrorKind, ParseErrorView};
use crate::grammar::{
    arguments, array_items, binary_of, expression, expression_bp, map_entries, operators,
    parameters, primary,
};
use crate::lexer::Lexer;
use crate::statement::parse_block;
use crate::token::{Symbol, Token};
use vstd::prelude::*;

verus! {

fn binary_operation_of(op: Symbol) -> (r: BinaryOperation)
    ensures
        r == binary_of(op),
{
    match op {
        Symbol::Sub => BinaryOperation::Sub,
        Symbol::Mul => BinaryOperation::Mul,
        Symbol::Div => BinaryOperation::Div,
        Symbol::Mod => BinaryOperation::Mod,
        Symbol::EqEq => BinaryOperation::Eq,
        Symbol::NoEq => BinaryOperation::NoEq,
        Symbol::Lt => BinaryOperation::Lt,
        Symbol::LtEq => BinaryOperation::LtEq,
        Symbol::Gt => BinaryOperation::Gt,
        Symbol::GtEq => BinaryOperation::GtEq,
        Symbol::And => BinaryOperation::And,
        Symbol::Or => BinaryOperation::Or,
        _ => BinaryOperation::Add,
    }
}

/// Takes the next token, which has to be the symbol `wanted`.
pub fn expect_symbol(lexer: &mut Lexer, wanted: Symbol, expected: &'static str) -> (r: Result<
    (),
    ParseError,
>)
    ensures
        final(lexer).bytes() == old(lexer).bytes(),
        final(lexer)@ == old(lexer)@.advanced(),
        match r {
            Ok(_) => old(lexer)@.front() == Ok::<crate::token::TokenView, ParseErrorView>(
                crate::token::TokenView::Symbol(wanted),
            ),
            Err(e) => crate::grammar::expect(
                old(lexer)@,
                crate::token::TokenView::Symbol(wanted),
                expected@,
            ).result == Err::<(), ParseErrorView>(e@),
        },
{
    match lexer.next() {
        Err(e) => Err(e),
        Ok(Token::Symbol(symbol)) => {
            if symbol == wanted {
                Ok(())
            } else {
                Err(
                    lexer.error(
                        ParseErrorKind::UnexpectedToken { expected, found: Token::Symbol(symbol) },
                    ),
                )
            }
        },
        Ok(token) => Err(lexer.error(ParseErrorKind::UnexpectedToken { expected, found: token })),
    }
}

/// Parses a full expression.
pub fn parse_expression(lexer: &mut Lexer) -> (r: Result<Expression, ParseError>)
    ensures
        final(lexer).bytes() == old(lexer).bytes(),
        final(lexer)@ == expression(old(lexer)@).cursor,
        final(lexer)@.pending.len() <= old(lexer)@.pending.len(),
        match r {
            Ok(e) => expression(old(lexer)@).result == Ok::<ExpressionView, ParseErrorView>(e@)
                && final(lexer)@.pending.len() < old(lexer)@.pending.len(),
            Err(e) => expression(old(lexer)@).result == Err::<ExpressionView, ParseErrorView>(e@),
        },
    decreases old(lexer)@.pending.len(), 2nat,
{
    parse_expression_bp(lexer, 0)
}

/// Parses an expression whose operators all bind at least as tightly as
/// `min_bp`.
pub fn parse_expression_bp(lexer: &mut Lexer, min_bp: u8) -> (r: Result<Expression, ParseError>)
    ensures
        final(lexer).bytes() == old(lexer).bytes(),
        final(lexer)@ == expression_bp(old(lexer)@, min_bp).cursor,
        final(lexer)@.pending.len() <= old(lexer)@.pending.len(),
        match r {
            Ok(e) => expression_bp(old(lexer)@, min_bp).result == Ok::<
                ExpressionView,
                ParseErrorView,
            >(e@) && final(lexer)@.pending.len() < old(lexer)@.pending.len(),
            Err(e) => expression_bp(old(lexer)@, min_bp).result == Err::<
                ExpressionView,
                ParseErrorView,
            >(e@),
        },
    decreases old(lexer)@.pending.len(), 1nat,
{
    match parse_primary(lexer) {
        Err(e) => Err(e),
        Ok(lhs) => parse_operators(lexer, lhs, min_bp),
    }
}

/// Parses a literal, a name, a bracketed construct, a function or an operand
/// with a prefix operator.
fn parse_primary(lexer: &mut Lexer) -> (r: Result<Expression, ParseError>)
    ensures
        final(lexer).bytes() == old(lexer).bytes(),
        final(lexer)@ == primary(old(lexer)@).cursor,
        final(lexer)@.pending.len() <= old(lexer)@.pending.len(),
        match r {
            Ok(e) => primary(old(lexer)@).result == Ok::<ExpressionView, ParseErrorView>(e@)
                && final(lexer)@.pending.len() < old(lexer)@.pending.len(),
            Err(e) => primary(old(lexer)@).result == Err::<ExpressionView, ParseErrorView>(e@),
        },
    decreases old(lexer)@.pending.len(), 0nat,
{
    match lexer.next() {
        Err(e) => Err(e),
        Ok(Token::True) => Ok(Expression::True),
        Ok(Token::False) => Ok(Expression::False),
        Ok(Token::Null) => Ok(Expression::Null),
        Ok(Token::Identifier(name)) => Ok(Expression::Identifier(name)),
        Ok(Token::Integer(n)) => Ok(Expression::Integer(n)),
        Ok(Token::Float(f)) => Ok(Expression::Float(f)),
        Ok(Token::String(s)) => Ok(Expression::String(s)),
        Ok(Token::Symbol(Symbol::ParenLeft)) => {
            match parse_expression(lexer) {
                Err(e) => Err(e),
                Ok(inner) => match expect_symbol(lexer, Symbol::ParenRight, "closing parenthesis") {
                    Err(e) => Err(e),
                    Ok(_) => Ok(inner),
                },
            }
        },
        Ok(Token::Symbol(Symbol::SquareLeft)) => {
            match parse_array_items(lexer) {
                Err(e) => Err(e),
                Ok(items) => match expect_symbol(
                    lexer,
                    Symbol::SquareRight,
                    "closing square bracket",
                ) {
                    Err(e) => Err(e),
                    Ok(_) => Ok(Expression::Array(items)),
                },
            }
        },
        Ok(Token::Symbol(Symbol::CurlyLeft)) => {
            match parse_map_entries(lexer) {
                Err(e) => Err(e),
                Ok(entries) => Ok(Expression::Mapping(entries)),
            }
        },
        Ok(Token::Symbol(Symbol::Sub)) => {
            match parse_expression_bp(lexer, 9) {
                Err(e) => Err(e),
                Ok(operand) => Ok(
                    Expression::UnaryOperation(Box::new(operand), UnaryOperation::Neg),
                ),
            }
        },
        Ok(Token::Symbol(Symbol::No)) => {
            match parse_expression_bp(lexer, 9) {
                Err(e) => Err(e),
                Ok(operand) => Ok(
                    Expression::UnaryOperation(Box::new(operand), UnaryOperation::Not),
                ),
            }
        },
        Ok(Token::Fn) => {
            match expect_symbol(lexer, Symbol::ParenLeft, "parameter list") {
                Err(e) => Err(e),
                Ok(_) => match parse_parameters(lexer) {
                    Err(e) => Err(e),
                    Ok(names) => match expect_symbol(
                        lexer,
                        Symbol::ParenRight,
                        "closing parenthesis",
                    ) {
                        Err(e) => Err(e),
                        Ok(_) => match parse_block(lexer) {
                            Err(e) => Err(e),
                            Ok(body) => Ok(Expression::Function(names, body)),
                        },
                    },
                },
            }
        },
        Ok(token) => Err(
            lexer.error(
                ParseErrorKind::UnexpectedToken { expected: "start of expression", found: token },
            ),
        ),
    }
}

/// Parses the items of an array literal, behind its opening bracket.
fn parse_array_items(lexer: &mut Lexer) -> (r: Result<Vec<Expression>, ParseError>)
    ensures
        final(lexer).bytes() == old(lexer).bytes(),
        final(lexer)@ == array_items(old(lexer)@, Seq::empty()).cursor,
        final(lexer)@.pending.len() <= old(lexer)@.pending.len(),
        match r {
            Ok(items) => array_items(old(lexer)@, Seq::empty()).result == Ok::<
                Seq<ExpressionView>,
                ParseErrorView,
            >(expressions_view(items@)),
            Err(e) => array_items(old(lexer)@, Seq::empty()).result == Err::<
                Seq<ExpressionView>,
                ParseErrorView,
            >(e@),
        },
    decreases old(lexer)@.pending.len(), 3nat,
{
    let ghost start = lexer@;
    let mut items: Vec<Expression> = Vec::new();
    assert(expressions_view(items@) =~= Seq::empty());
    loop
        invariant
            lexer.bytes() == old(lexer).bytes(),
            start == old(lexer)@,
            lexer@.pending.len() <= start.pending.len(),
            array_items(lexer@, expressions_view(items@)) == array_items(start, Seq::empty()),
        decreases lexer@.pending.len(),
    {
        match lexer.peek() {
            Err(e) => {
                return Err(e);
            },
            Ok(Token::Eof) => {
                return Ok(items);
            },
            Ok(Token::Symbol(Symbol::SquareRight)) => {
                return Ok(items);
            },
            Ok(_) => {},
        }
        let ghost so_far = expressions_view(items@);
        match parse_expression(lexer) {
            Err(e) => {
                return Err(e);
            },
            Ok(value) => {
                items.push(value);
                assert(expressions_view(items@) =~= so_far.push(value@));
            },
        }
        match lexer.peek() {
            Err(e) => {
                return Err(e);
            },
            Ok(Token::Symbol(Symbol::Comma)) => {
                match lexer.next() {
                    Err(e) => {
                        return Err(e);
                    },
                    Ok(_) => {},
                }
            },
            Ok(_) => {
                return Ok(items);
            },
        }
    }
}

/// Parses the entries of a map literal and its closing bracket.
fn parse_map_entries(lexer: &mut Lexer) -> (r: Result<Vec<(Expression, Expression)>, ParseError>)
    ensures
        final(lexer).bytes() == old(lexer).bytes(),
        final(lexer)@ == map_entries(old(lexer)@, Seq::empty()).cursor,
        final(lexer)@.pending.len() <= old(lexer)@.pending.len(),
        match r {
            Ok(entries) => map_entries(old(lexer)@, Seq::empty()).result == Ok::<
                Seq<(ExpressionView, ExpressionView)>,
                ParseErrorView,
            >(entries_view(entries@)),
            Err(e) => map_entries(old(lexer)@, Seq::empty()).result == Err::<
                Seq<(ExpressionView, ExpressionView)>,
                ParseErrorView,
            >(e@),
        },
    decreases old(lexer)@.pending.len(), 3nat,
{
    let ghost start = lexer@;
    let mut entries: Vec<(Expression, Expression)> = Vec::new();
    assert(entries_view(entries@) =~= Seq::empty());
    loop
        invariant
            lexer.bytes() == old(lexer).bytes(),
            start == old(lexer)@,
            lexer@.pending.len() <= start.pending.len(),
            map_entries(lexer@, entries_view(entries@)) == map_entries(start, Seq::empty()),
        decreases lexer@.pending.len(),
    {
        match lexer.peek() {
            Err(e) => {
                return Err(e);
            },
            Ok(Token::Eof) => {
                match lexer.next() {
                    Err(e) => {
                        return Err(e);
                    },
                    Ok(_) => {},
                }
                return Err(
                    lexer.error(
                        ParseErrorKind::UnexpectedToken {
                            expected: "closing curly bracket",
                            found: Token::Eof,
                        },
                    ),
                );
            },
            Ok(Token::Symbol(Symbol::CurlyRight)) => {
                match lexer.next() {
                    Err(e) => {
                        return Err(e);
                    },
                    Ok(_) => {},
                }
                return Ok(entries);
            },
            Ok(_) => {},
        }
        let ghost so_far = entries_view(entries@);
        let key = match parse_expression(lexer) {
            Err(e) => {
                return Err(e);
            },
            Ok(key) => key,
        };
        match expect_symbol(lexer, Symbol::Colon, "colon") {
            Err(e) => {
                return Err(e);
            },
            Ok(_) => {},
        }
        let value = match parse_expression(lexer) {
            Err(e) => {
                return Err(e);
            },
            Ok(value) => value,
        };
        let ghost pair = (key@, value@);
        entries.push((key, value));
        assert(entries_view(entries@) =~= so_far.push(pair));
        match lexer.peek() {
            Err(e) => {
                return Err(e);
            },
            Ok(Token::Symbol(Symbol::Comma)) => {
                match lexer.next() {
                    Err(e) => {
                        return Err(e);
                    },
                    Ok(_) => {},
                }
            },
            Ok(Token::Symbol(Symbol::CurlyRight)) => {
                match lexer.next() {
                    Err(e) => {
                        return Err(e);
                    },
                    Ok(_) => {},
                }
                return Ok(entries);
            },
            Ok(token) => {
                return Err(
                    lexer.error(
                        ParseErrorKind::UnexpectedToken {
                            expected: "comma or closing curly bracket",
                            found: token,
                        },
                    ),
                );
            },
        }
    }
}

/// Parses the parameter names of a function literal, behind its opening
/// bracket.
fn parse_parameters(lexer: &mut Lexer) -> (r: Result<Vec<Identifier>, ParseError>)
    ensures
        final(lexer).bytes() == old(lexer).bytes(),
        final(lexer)@ == parameters(old(lexer)@, Seq::empty()).cursor,
        final(lexer)@.pending.len() <= old(lexer)@.pending.len(),
        match r {
            Ok(names) => parameters(old(lexer)@, Seq::empty()).result == Ok::<
                Seq<Seq<char>>,
                ParseErrorView,
            >(identifiers_view(names@)),
            Err(e) => parameters(old(lexer)@, Seq::empty()).result == Err::<
                Seq<Seq<char>>,
                ParseErrorView,
            >(e@),
        },
{
    let ghost start = lexer@;
    let mut names: Vec<Identifier> = Vec::new();
    assert(identifiers_view(names@) =~= Seq::empty());
    loop
        invariant
            lexer.bytes() == old(lexer).bytes(),
            start == old(lexer)@,
            lexer@.pending.len() <= start.pending.len(),
            parameters(lexer@, identifiers_view(names@)) == parameters(start, Seq::empty()),
        decreases lexer@.pending.len(),
    {
        match lexer.peek() {
            Err(e) => {
                return Err(e);
            },
            Ok(Token::Symbol(Symbol::ParenRight)) => {
                return Ok(names);
            },
            Ok(_) => {},
        }
        let ghost so_far = identifiers_view(names@);
        match lexer.next() {
            Err(e) => {
                return Err(e);
            },
            Ok(Token::Identifier(name)) => {
                names.push(name);
                assert(identifiers_view(names@) =~= so_far.push(name@));
            },
            Ok(token) => {
                return Err(
                    lexer.error(
                        ParseErrorKind::UnexpectedToken { expected: "identifier", found: token },
                    ),
                );
            },
        }
        match lexer.peek() {
            Err(e) => {
                return Err(e);
            },
            Ok(Token::Symbol(Symbol::Comma)) => {
                match lexer.next() {
                    Err(e) => {
                        return Err(e);
                    },
                    Ok(_) => {},
                }
            },
            Ok(_) => {
                return Ok(names);
            },
        }
    }
}

/// Parses the arguments of a call, behind its opening bracket.
fn parse_arguments(lexer: &mut Lexer) -> (r: Result<Vec<Expression>, ParseError>)
    ensures
        final(lexer).bytes() == old(lexer).bytes(),
        final(lexer)@ == arguments(old(lexer)@, Seq::empty()).cursor,
        final(lexer)@.pending.len() <= old(lexer)@.pending.len(),
        match r {
            Ok(values) => arguments(old(lexer)@, Seq::empty()).result == Ok::<
                Seq<ExpressionView>,
                ParseErrorView,
            >(expressions_view(values@)),
            Err(e) => arguments(old(lexer)@, Seq::empty()).result == Err::<
                Seq<ExpressionView>,
                ParseErrorView,
            >(e@),
        },
    decreases old(lexer)@.pending.len(), 3nat,
{
    let ghost start = lexer@;
    let mut values: Vec<Expression> = Vec::new();
    assert(expressions_view(values@) =~= Seq::empty());
    loop
        invariant
            lexer.bytes() == old(lexer).bytes(),
            start == old(lexer)@,
            lexer@.pending.len() <= start.pending.len(),
            arguments(lexer@, expressions_view(values@)) == arguments(start, Seq::empty()),
        decreases lexer@.pending.len(),
    {
        match lexer.peek() {
            Err(e) => {
                return Err(e);
            },
            Ok(Token::Symbol(Symbol::ParenRight)) => {
                return Ok(values);
            },
            Ok(_) => {},
        }
        let ghost so_far = expressions_view(values@);
        match parse_expression(lexer) {
            Err(e) => {
                return Err(e);
            },
            Ok(value) => {
                values.push(value);
                assert(expressions_view(values@) =~= so_far.push(value@));
            },
        }
        match lexer.peek() {
            Err(e) => {
                return Err(e);
            },
            Ok(Token::Symbol(Symbol::Comma)) => {
                match lexer.next() {
                    Err(e) => {
                        return Err(e);
                    },
                    Ok(_) => {},
                }
            },
            Ok(_) => {
                return Ok(values);
            },
        }
    }
}

/// Parses the postfix and infix operators behind `operand`, as long
/// as they bind at least as tightly as `min_bp`.
fn parse_operators(lexer: &mut Lexer, operand: Expression, min_bp: u8) -> (r: Result<
    Expression,
    ParseError,
>)
    ensures
        final(lexer).bytes() == old(lexer).bytes(),
        final(lexer)@ == operators(old(lexer)@, operand@, min_bp).cursor,
        final(lexer)@.pending.len() <= old(lexer)@.pending.len(),
        match r {
            Ok(e) => operators(old(lexer)@, operand@, min_bp).result == Ok::<
                ExpressionView,
                ParseErrorView,
            >(e@),
            Err(e) => operators(old(lexer)@, operand@, min_bp).result == Err::<
                ExpressionView,
                ParseErrorView,
            >(e@),
        },
    decreases old(lexer)@.pending.len(), 0nat,
{
    let ghost start = lexer@;
    let ghost first = operand@;
    let mut lhs = operand;
    loop
        invariant
            lexer.bytes() == old(lexer).bytes(),
            start == old(lexer)@,
            first == operand@,
            lexer@.pending.len() <= start.pending.len(),
            operators(lexer@, lhs@, min_bp) == operators(start, first, min_bp),
        decreases lexer@.pending.len(),
    {
        let op = match lexer.peek() {
            Err(e) => {
                return Err(e);
            },
            Ok(Token::Eof) => {
                return Ok(lhs);
            },
            Ok(Token::Symbol(op)) => op,
            Ok(token) => {
                return Err(
                    lexer.error(
                        ParseErrorKind::UnexpectedToken {
                            expected: "operator or end of expression",
                            found: token,
                        },
                    ),
                );
            },
        };
        match op.postfix_bp() {
            Some((l_bp, _)) => {
                if l_bp < min_bp {
                    return Ok(lhs);
                }
                match lexer.next() {
                    Err(e) => {
                        return Err(e);
                    },
                    Ok(_) => {},
                }
                if op == Symbol::SquareLeft {
                    let key = match parse_expression(lexer) {
                        Err(e) => {
                            return Err(e);
                        },
                        Ok(key) => key,
                    };
                    match expect_symbol(lexer, Symbol::SquareRight, "closing square bracket") {
                        Err(e) => {
                            return Err(e);
                        },
                        Ok(_) => {},
                    }
                    lhs = Expression::BinaryOperation(Box::new((lhs, key)), BinaryOperation::Index);
                } else {
                    let values = match parse_arguments(lexer) {
                        Err(e) => {
                            return Err(e);
                        },
                        Ok(values) => values,
                    };
                    match expect_symbol(lexer, Symbol::ParenRight, "closing parenthesis") {
                        Err(e) => {
                            return Err(e);
                        },
                        Ok(_) => {},
                    }
                    lhs = Expression::Call(Box::new(lhs), values);
                }
            },
            None => {
                match op.infix_bp() {
                    Some((l_bp, r_bp)) => {
                        if l_bp < min_bp {
                            return Ok(lhs);
                        }
                        match lexer.next() {
                            Err(e) => {
                                return Err(e);
                            },
                            Ok(_) => {},
                        }
                        if op == Symbol::Dot {
                            match lexer.next() {
                                Err(e) => {
                                    return Err(e);
                                },
                                Ok(Token::Identifier(name)) => {
                                    lhs = Expression::Member(Box::new(lhs), name);
                                },
                                Ok(token) => {
                                    return Err(
                                        lexer.error(
                                            ParseErrorKind::UnexpectedToken {
                                                expected: "identifier",
                                                found: token,
                                            },
                                        ),
                                    );
                                },
                            }
                        } else {
                            let rhs = match parse_expression_bp(lexer, r_bp) {
                                Err(e) => {
                                    return Err(e);
                                },
                                Ok(rhs) => rhs,
                            };
                            lhs = Expression::BinaryOperation(
                                Box::new((lhs, rhs)),
                                binary_operation_of(op),
                            );
                        }
                    },
                    None => {
                        return Ok(lhs);
                    },
                }
            },
        }
    }
}

} // verus!
