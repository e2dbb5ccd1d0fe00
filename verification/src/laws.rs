//! Laws that hold of every text and of every program.

use crate::ast::{ExpressionView, StatementView};
use crate::lexical::{
    bump, lexemes, newlines, stream, token_at, trivia_end, Cursor, Lexeme,
};
use crate::token::TokenView;
use crate::semantics::{
    eval, eval_all, eval_entries, exec, exec_all, exec_branches, invoke, run_loop, run_while,
};
use crate::state::{lemma_frame_of, StateView};
use crate::value::{HashableView, ValueView};
use vstd::prelude::*;
use vstd::string::StringSliceAdditionalSpecFns;

verus! {

/// Lexing is a function of the text alone: whoever lexes the same
/// characters again has the same tokens, the same lines and the same end
/// before them.
pub proof fn law_lexing_is_repeatable(first: &str, second: &str)
    requires
        first@ == second@,
    ensures
        lexemes(first.spec_bytes()) == lexemes(second.spec_bytes()),
{
}

/// Line numbers only grow: no token of a text stands before the line on
/// which lexing starts, none stands before the token in front of it, and the
/// text ends on the line of its last token or behind it.
pub proof fn law_lines_only_grow(src: Seq<u8>, pos: int, line: nat)
    requires
        line <= usize::MAX,
    ensures
        ({
            let c = stream(src, pos, line);
            &&& line <= c.end_line <= usize::MAX
            &&& forall|i: int| 0 <= i < c.pending.len() ==> line <= (#[trigger] c.pending[i]).line
            &&& forall|i: int|
                0 <= i < c.pending.len() ==> (#[trigger] c.pending[i]).line <= c.end_line
            &&& forall|i: int, j: int|
                0 <= i <= j < c.pending.len() ==> (#[trigger] c.pending[i]).line <= (
                #[trigger] c.pending[j]).line
        }),
    decreases src.len() - pos,
{
    let p = trivia_end(src, pos, false);
    let reached = bump(line, newlines(src, pos, p));
    let scan = token_at(src, p);
    match scan.item {
        Ok(token) => {
            if token != TokenView::Eof && 0 <= pos < scan.end <= src.len() {
                law_lines_only_grow(src, scan.end, reached);
                let rest = stream(src, scan.end, reached);
                let c = stream(src, pos, line);
                assert(c.pending == seq![Lexeme { token, line: reached }] + rest.pending);
                assert forall|i: int| 0 <= i < c.pending.len() implies line <= (
                #[trigger] c.pending[i]).line && c.pending[i].line <= c.end_line by {
                    if i > 0 {
                        assert(c.pending[i] == rest.pending[i - 1]);
                    }
                }
                assert forall|i: int, j: int| 0 <= i <= j < c.pending.len() implies (
                #[trigger] c.pending[i]).line <= (#[trigger] c.pending[j]).line by {
                    if i > 0 {
                        assert(c.pending[i] == rest.pending[i - 1]);
                    }
                    if j > 0 {
                        assert(c.pending[j] == rest.pending[j - 1]);
                    }
                }
            }
        },
        Err(_) => {},
    }
}

/// The end of input is final: a cursor with no token to come shows the same
/// to whoever takes from it as often as they like.
pub proof fn law_end_is_final(c: Cursor)
    requires
        c.pending.len() == 0,
    ensures
        c.advanced().front() == c.front(),
        c.advanced().advanced() == c.advanced(),
        c.advanced().pending.len() == 0,
{
}

/// An expression that has a value leaves as many scopes as it found.
pub proof fn law_expression_keeps_depth(e: ExpressionView, state: StateView, fuel: nat)
    ensures
        eval(e, state, fuel).result is Ok ==> eval(e, state, fuel).state.stack.len()
            == state.stack.len(),
    decreases fuel, e, 0nat,
{
    match e {
        ExpressionView::Array(items) => {
            lemma_list_keeps_depth(items, 0, state, fuel, Seq::empty());
        },
        ExpressionView::Mapping(entries) => {
            lemma_entries_keep_depth(entries, 0, state, fuel, Seq::empty());
        },
        ExpressionView::Call(callee, arguments) => {
            law_expression_keeps_depth(*callee, state, fuel);
            let function = eval(*callee, state, fuel);
            if function.result is Ok {
                lemma_call_keeps_depth(function.result->Ok_0, arguments, function.state, fuel);
            }
        },
        ExpressionView::UnaryOperation(operand, _) => {
            law_expression_keeps_depth(*operand, state, fuel);
        },
        ExpressionView::BinaryOperation(lhs, rhs, _) => {
            law_expression_keeps_depth(*lhs, state, fuel);
            let left = eval(*lhs, state, fuel);
            if left.result is Ok {
                law_expression_keeps_depth(*rhs, left.state, fuel);
            }
        },
        _ => {},
    }
}

proof fn lemma_call_keeps_depth(
    function: ValueView,
    arguments: Seq<ExpressionView>,
    state: StateView,
    fuel: nat,
)
    ensures
        invoke(function, arguments, state, fuel).result is Ok ==> invoke(
            function,
            arguments,
            state,
            fuel,
        ).state.stack.len() == state.stack.len(),
    decreases fuel, arguments, arguments.len() + 1,
{
    match function {
        ValueView::Function(parameters, body) => {
            if arguments.len() == parameters.len() {
                lemma_list_keeps_depth(arguments, 0, state, fuel, Seq::empty());
                let values = eval_all(arguments, 0, state, fuel, Seq::empty());
                if values.result is Ok && fuel > 0 {
                    let entered = StateView {
                        stack: values.state.stack.push(
                            crate::semantics::frame_for(
                                parameters,
                                values.result->Ok_0,
                                0,
                                Seq::empty(),
                            ),
                        ),
                        ..values.state
                    };
                    law_statements_keep_depth(body, 0, entered, (fuel - 1) as nat);
                }
            }
        },
        _ => {},
    }
}

proof fn lemma_list_keeps_depth(
    es: Seq<ExpressionView>,
    i: int,
    state: StateView,
    fuel: nat,
    values: Seq<ValueView>,
)
    ensures
        eval_all(es, i, state, fuel, values).result is Ok ==> eval_all(
            es,
            i,
            state,
            fuel,
            values,
        ).state.stack.len() == state.stack.len(),
    decreases fuel, es, es.len() - i,
{
    if 0 <= i < es.len() {
        law_expression_keeps_depth(es[i], state, fuel);
        let value = eval(es[i], state, fuel);
        if value.result is Ok {
            lemma_list_keeps_depth(es, i + 1, value.state, fuel, values.push(value.result->Ok_0));
        }
    }
}

proof fn lemma_entries_keep_depth(
    entries: Seq<(ExpressionView, ExpressionView)>,
    i: int,
    state: StateView,
    fuel: nat,
    pairs: Seq<(HashableView, ValueView)>,
)
    ensures
        eval_entries(entries, i, state, fuel, pairs).result is Ok ==> eval_entries(
            entries,
            i,
            state,
            fuel,
            pairs,
        ).state.stack.len() == state.stack.len(),
    decreases fuel, entries, entries.len() - i,
{
    if 0 <= i < entries.len() {
        law_expression_keeps_depth(entries[i].0, state, fuel);
        let key = eval(entries[i].0, state, fuel);
        if key.result is Ok {
            law_expression_keeps_depth(entries[i].1, key.state, fuel);
            let value = eval(entries[i].1, key.state, fuel);
            if value.result is Ok {
                match crate::value::hashable(key.result->Ok_0) {
                    Some(h) => {
                        lemma_entries_keep_depth(
                            entries,
                            i + 1,
                            value.state,
                            fuel,
                            crate::value::store(pairs, h, value.result->Ok_0),
                        );
                    },
                    None => {},
                }
            }
        }
    }
}

/// Control flow is balanced: a statement that ends, however it ends, leaves
/// as many scopes on the stack as it found there. This holds of every
/// statement, and so of every `loop` that a `break` or a `return` ends.
pub proof fn law_statement_keeps_depth(s: StatementView, state: StateView, fuel: nat)
    requires
        state.stack.len() > 0,
    ensures
        exec(s, state, fuel).result is Ok ==> exec(s, state, fuel).state.stack.len()
            == state.stack.len(),
    decreases fuel, s, 0nat,
{
    match s {
        StatementView::Declaration { name, initializer } => {
            law_expression_keeps_depth(initializer, state, fuel);
        },
        StatementView::Assignment { lvalue, value } => {
            law_expression_keeps_depth(value, state, fuel);
            let computed = eval(value, state, fuel);
            match lvalue {
                crate::ast::LvalueView::Identifier(name) => {
                    lemma_frame_of(computed.state.stack, name, computed.state.stack.len() as int);
                },
                _ => {},
            }
        },
        StatementView::UnusedExpression(e) => {
            law_expression_keeps_depth(e, state, fuel);
        },
        StatementView::Return(e) => {
            law_expression_keeps_depth(e, state, fuel);
        },
        StatementView::Loop { body } => {
            lemma_loop_keeps_depth(body, state, fuel);
        },
        StatementView::While { condition, body } => {
            lemma_while_keeps_depth(condition, body, state, fuel);
        },
        StatementView::If { branches } => {
            lemma_branches_keep_depth(branches, 0, state, fuel);
        },
        StatementView::Block { body } => {
            law_statements_keep_depth(body, 0, state.pushed(), fuel);
        },
        _ => {},
    }
}

/// A sequence of statements that ends leaves as many scopes as it found.
pub proof fn law_statements_keep_depth(
    ss: Seq<StatementView>,
    i: int,
    state: StateView,
    fuel: nat,
)
    requires
        state.stack.len() > 0,
    ensures
        exec_all(ss, i, state, fuel).result is Ok ==> exec_all(ss, i, state, fuel).state.stack.len()
            == state.stack.len(),
    decreases fuel, ss, ss.len() - i,
{
    if 0 <= i < ss.len() {
        law_statement_keeps_depth(ss[i], state, fuel);
        let step = exec(ss[i], state, fuel);
        if step.result is Ok {
            law_statements_keep_depth(ss, i + 1, step.state, fuel);
        }
    }
}

proof fn lemma_branches_keep_depth(
    branches: Seq<(ExpressionView, Seq<StatementView>)>,
    i: int,
    state: StateView,
    fuel: nat,
)
    requires
        state.stack.len() > 0,
    ensures
        exec_branches(branches, i, state, fuel).result is Ok ==> exec_branches(
            branches,
            i,
            state,
            fuel,
        ).state.stack.len() == state.stack.len(),
    decreases fuel, branches, branches.len() - i,
{
    if 0 <= i < branches.len() {
        law_expression_keeps_depth(branches[i].0, state, fuel);
        let condition = eval(branches[i].0, state, fuel);
        if condition.result is Ok {
            law_statements_keep_depth(branches[i].1, 0, condition.state.pushed(), fuel);
            lemma_branches_keep_depth(branches, i + 1, condition.state, fuel);
        }
    }
}

proof fn lemma_loop_keeps_depth(body: Seq<StatementView>, state: StateView, fuel: nat)
    requires
        state.stack.len() > 0,
    ensures
        run_loop(body, state, fuel).result is Ok ==> run_loop(body, state, fuel).state.stack.len()
            == state.stack.len(),
    decreases fuel, body, body.len() + 1,
{
    if fuel > 0 {
        law_statements_keep_depth(body, 0, state.pushed(), (fuel - 1) as nat);
        let step = exec_all(body, 0, state.pushed(), (fuel - 1) as nat);
        if step.result is Ok {
            lemma_loop_keeps_depth(body, step.state.popped(), (fuel - 1) as nat);
        }
    }
}

proof fn lemma_while_keeps_depth(
    condition: ExpressionView,
    body: Seq<StatementView>,
    state: StateView,
    fuel: nat,
)
    requires
        state.stack.len() > 0,
    ensures
        run_while(condition, body, state, fuel).result is Ok ==> run_while(
            condition,
            body,
            state,
            fuel,
        ).state.stack.len() == state.stack.len(),
    decreases fuel, body, body.len() + 1,
{
    if fuel > 0 {
        law_expression_keeps_depth(condition, state, (fuel - 1) as nat);
        let test = eval(condition, state, (fuel - 1) as nat);
        if test.result is Ok {
            law_statements_keep_depth(body, 0, test.state.pushed(), (fuel - 1) as nat);
            let step = exec_all(body, 0, test.state.pushed(), (fuel - 1) as nat);
            if step.result is Ok {
                lemma_while_keeps_depth(
                    condition,
                    body,
                    step.state.popped(),
                    (fuel - 1) as nat,
                );
            }
        }
    }
}

} // verus!
