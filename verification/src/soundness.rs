//! The invariant of values and scopes: no map holds a key twice and no scope
//! a name twice. Evaluation keeps it.

use crate::ast::{BinaryOperation, ExpressionView, LvalueView, StatementView, UnaryOperation};
use crate::semantics::{
    answer, apply_binary, apply_unary, eval, eval_all, eval_entries, exec, exec_all,
    exec_branches, frame_for, invoke, run_loop, run_while,
};
use crate::state::{lemma_frame_of, FlowView, Frame, HaltView, StateView};
use crate::value::{
    distinct_keys, has_key, hashable, index_of, lemma_index_of, lemma_store_keeps_keys_apart,
    store, HashableView, ValueView,
};
use vstd::prelude::*;

verus! {

/// No map in the value holds a key twice.
pub open spec fn well_formed(v: ValueView) -> bool
    decreases v,
{
    match v {
        ValueView::Array(items) => forall|i: int|
            0 <= i < items.len() ==> well_formed(#[trigger] items[i]),
        ValueView::Mapping(entries) => distinct_keys(entries) && forall|i: int|
            0 <= i < entries.len() ==> well_formed((#[trigger] entries[i]).1),
        _ => true,
    }
}

/// All the values are well formed.
pub open spec fn all_well_formed(values: Seq<ValueView>) -> bool {
    forall|i: int| 0 <= i < values.len() ==> well_formed(#[trigger] values[i])
}

/// No key stands twice and every value is well formed.
pub open spec fn entries_well_formed<K>(entries: Seq<(K, ValueView)>) -> bool {
    distinct_keys(entries) && forall|i: int|
        0 <= i < entries.len() ==> well_formed((#[trigger] entries[i]).1)
}

/// Every scope of the state is well formed.
pub open spec fn state_well_formed(state: StateView) -> bool {
    forall|k: int| 0 <= k < state.stack.len() ==> entries_well_formed(#[trigger] state.stack[k])
}

/// The value that a statement returns, if it returns one, is well formed.
pub open spec fn flow_well_formed(flow: FlowView) -> bool {
    match flow {
        FlowView::Return(value) => well_formed(value),
        _ => true,
    }
}

/// Storing a well formed value keeps entries well formed.
pub proof fn lemma_store_keeps_well_formed<K>(entries: Seq<(K, ValueView)>, key: K, value: ValueView)
    requires
        entries_well_formed(entries),
        well_formed(value),
    ensures
        entries_well_formed(store(entries, key, value)),
{
    lemma_store_keeps_keys_apart(entries, key, value);
    lemma_index_of(entries, key, 0);
    let after = store(entries, key, value);
    assert forall|i: int| 0 <= i < after.len() implies well_formed((#[trigger] after[i]).1) by {
        if has_key(entries, key) {
            if i != index_of(entries, key, 0) {
                assert(after[i] == entries[i]);
            }
        } else if i < entries.len() {
            assert(after[i] == entries[i]);
        }
    }
}

/// The frame of a call is well formed.
pub proof fn lemma_frame_well_formed(
    parameters: Seq<Seq<char>>,
    arguments: Seq<ValueView>,
    i: int,
    frame: Frame,
)
    requires
        0 <= i,
        parameters.len() == arguments.len(),
        all_well_formed(arguments),
        entries_well_formed(frame),
    ensures
        entries_well_formed(frame_for(parameters, arguments, i, frame)),
    decreases parameters.len() - i,
{
    if i < parameters.len() {
        lemma_store_keeps_well_formed(frame, parameters[i], arguments[i]);
        lemma_frame_well_formed(
            parameters,
            arguments,
            i + 1,
            store(frame, parameters[i], arguments[i]),
        );
    }
}

/// What an operator makes of well formed values is well formed.
pub proof fn lemma_operators_keep_well_formed(
    lhs: ValueView,
    rhs: ValueView,
    operation: BinaryOperation,
)
    requires
        well_formed(lhs),
        well_formed(rhs),
    ensures
        apply_binary(lhs, rhs, operation) matches Ok(value) ==> well_formed(value),
{
    if operation == BinaryOperation::Index {
        match lhs {
            ValueView::Mapping(entries) => {
                match hashable(rhs) {
                    Some(k) => {
                        lemma_index_of(entries, k, 0);
                    },
                    None => {},
                }
            },
            _ => {},
        }
    }
}

/// Resolving a request keeps the state well formed and gives a well formed
/// value.
pub proof fn lemma_answer_keeps_well_formed(state: StateView, outcome: Result<ValueView, HaltView>)
    requires
        state_well_formed(state),
        outcome matches Ok(value) ==> well_formed(value),
    ensures
        state_well_formed(answer(state, outcome).state),
        answer(state, outcome).result matches Ok(value) ==> well_formed(value),
{
    let after = answer(state, outcome).state;
    assert(after.stack == state.stack);
    assert forall|k: int| 0 <= k < after.stack.len() implies entries_well_formed(
        #[trigger] after.stack[k],
    ) by {
        assert(entries_well_formed(state.stack[k]));
    }
}

/// Entering a scope keeps the state well formed.
pub proof fn lemma_push_keeps_well_formed(state: StateView, frame: Frame)
    requires
        state_well_formed(state),
        entries_well_formed(frame),
    ensures
        state_well_formed(StateView { stack: state.stack.push(frame), ..state }),
{
    let after = StateView { stack: state.stack.push(frame), ..state };
    assert forall|k: int| 0 <= k < after.stack.len() implies entries_well_formed(
        #[trigger] after.stack[k],
    ) by {
        if k < state.stack.len() {
            assert(after.stack[k] == state.stack[k]);
        }
    }
}

/// Leaving a scope keeps the state well formed.
pub proof fn lemma_pop_keeps_well_formed(state: StateView)
    requires
        state_well_formed(state),
        state.stack.len() > 0,
    ensures
        state_well_formed(state.popped()),
{
    let after = state.popped();
    assert forall|k: int| 0 <= k < after.stack.len() implies entries_well_formed(
        #[trigger] after.stack[k],
    ) by {
        assert(after.stack[k] == state.stack[k]);
    }
}

/// What a name stands for in a well formed state is well formed.
pub proof fn lemma_lookup_well_formed(state: StateView, name: Seq<char>)
    requires
        state_well_formed(state),
        state.home(name) >= 0,
    ensures
        well_formed(state.value(name)),
{
    lemma_frame_of(state.stack, name, state.stack.len() as int);
    let frame = state.stack[state.home(name)];
    assert(entries_well_formed(frame));
    lemma_index_of(frame, name, 0);
    assert(well_formed(frame[index_of(frame, name, 0)].1));
}

/// What a unary operator makes of a value is well formed.
pub proof fn lemma_unary_keeps_well_formed(
    state: StateView,
    operand: ValueView,
    operation: UnaryOperation,
)
    requires
        state_well_formed(state),
    ensures
        state_well_formed(answer(state, apply_unary(operand, operation)).state),
        answer(state, apply_unary(operand, operation)).result matches Ok(value) ==> well_formed(
            value,
        ),
{
    lemma_answer_keeps_well_formed(state, apply_unary(operand, operation));
}

/// What a binary operator makes of well formed values is well formed.
pub proof fn lemma_binary_keeps_well_formed(
    state: StateView,
    lhs: ValueView,
    rhs: ValueView,
    operation: BinaryOperation,
)
    requires
        state_well_formed(state),
        well_formed(lhs),
        well_formed(rhs),
    ensures
        state_well_formed(answer(state, apply_binary(lhs, rhs, operation)).state),
        answer(state, apply_binary(lhs, rhs, operation)).result matches Ok(value) ==> well_formed(
            value,
        ),
{
    lemma_operators_keep_well_formed(lhs, rhs, operation);
    lemma_answer_keeps_well_formed(state, apply_binary(lhs, rhs, operation));
}

/// Putting a well formed value into one frame keeps the state well formed.
pub proof fn lemma_update_keeps_well_formed(
    state: StateView,
    k: int,
    name: Seq<char>,
    value: ValueView,
)
    requires
        state_well_formed(state),
        well_formed(value),
        0 <= k < state.stack.len(),
    ensures
        state_well_formed(
            StateView { stack: state.stack.update(k, store(state.stack[k], name, value)), ..state },
        ),
{
    let after = StateView {
        stack: state.stack.update(k, store(state.stack[k], name, value)),
        ..state
    };
    assert(entries_well_formed(state.stack[k]));
    lemma_store_keeps_well_formed(state.stack[k], name, value);
    assert forall|j: int| 0 <= j < after.stack.len() implies entries_well_formed(
        #[trigger] after.stack[j],
    ) by {
        if j != k {
            assert(after.stack[j] == state.stack[j]);
        }
    }
}

/// Evaluation keeps the invariant: in a well formed state an expression
/// leaves the state well formed, and its value is well formed.
pub proof fn law_expression_keeps_well_formed(e: ExpressionView, state: StateView, fuel: nat)
    requires
        state_well_formed(state),
    ensures
        state_well_formed(eval(e, state, fuel).state),
        eval(e, state, fuel).result matches Ok(value) ==> well_formed(value),
    decreases fuel, e, 0nat,
{
    match e {
        ExpressionView::Identifier(name) => {
            if state.home(name) >= 0 {
                lemma_lookup_well_formed(state, name);
            }
        },
        ExpressionView::Array(items) => {
            lemma_list_keeps_well_formed(items, 0, state, fuel, Seq::empty());
        },
        ExpressionView::Mapping(entries) => {
            lemma_entries_keep_well_formed(entries, 0, state, fuel, Seq::empty());
        },
        ExpressionView::Call(callee, arguments) => {
            law_expression_keeps_well_formed(*callee, state, fuel);
            let function = eval(*callee, state, fuel);
            if function.result is Ok {
                lemma_call_keeps_well_formed(
                    function.result->Ok_0,
                    arguments,
                    function.state,
                    fuel,
                );
            }
        },
        ExpressionView::UnaryOperation(operand, operation) => {
            law_expression_keeps_well_formed(*operand, state, fuel);
            let value = eval(*operand, state, fuel);
            if value.result is Ok {
                lemma_unary_keeps_well_formed(value.state, value.result->Ok_0, operation);
            }
        },
        ExpressionView::BinaryOperation(lhs, rhs, operation) => {
            law_expression_keeps_well_formed(*lhs, state, fuel);
            let left = eval(*lhs, state, fuel);
            if left.result is Ok {
                law_expression_keeps_well_formed(*rhs, left.state, fuel);
                let right = eval(*rhs, left.state, fuel);
                if right.result is Ok {
                    lemma_binary_keeps_well_formed(
                        right.state,
                        left.result->Ok_0,
                        right.result->Ok_0,
                        operation,
                    );
                }
            }
        },
        _ => {},
    }
}

proof fn lemma_call_keeps_well_formed(
    function: ValueView,
    arguments: Seq<ExpressionView>,
    state: StateView,
    fuel: nat,
)
    requires
        state_well_formed(state),
    ensures
        state_well_formed(invoke(function, arguments, state, fuel).state),
        invoke(function, arguments, state, fuel).result matches Ok(value) ==> well_formed(value),
    decreases fuel, arguments, arguments.len() + 1,
{
    match function {
        ValueView::Function(parameters, body) => {
            if arguments.len() == parameters.len() {
                lemma_list_keeps_well_formed(arguments, 0, state, fuel, Seq::empty());
                lemma_list_length(arguments, 0, state, fuel, Seq::empty());
                let values = eval_all(arguments, 0, state, fuel, Seq::empty());
                if values.result is Ok && fuel > 0 {
                    let list = values.result->Ok_0;
                    let frame = frame_for(parameters, list, 0, Seq::empty());
                    lemma_frame_well_formed(parameters, list, 0, Seq::empty());
                    lemma_push_keeps_well_formed(values.state, frame);
                    let entered = StateView { stack: values.state.stack.push(frame), ..values.state };
                    lemma_statements_keep_well_formed(body, 0, entered, (fuel - 1) as nat);
                    crate::laws::law_statements_keep_depth(body, 0, entered, (fuel - 1) as nat);
                    let step = exec_all(body, 0, entered, (fuel - 1) as nat);
                    if step.result is Ok {
                        lemma_pop_keeps_well_formed(step.state);
                    }
                }
            }
        },
        _ => {},
    }
}

/// A list of values is as long as the list of expressions that it comes
/// from.
pub proof fn lemma_list_length(
    es: Seq<ExpressionView>,
    i: int,
    state: StateView,
    fuel: nat,
    values: Seq<ValueView>,
)
    requires
        0 <= i <= es.len(),
    ensures
        eval_all(es, i, state, fuel, values).result matches Ok(list) ==> list.len() == values.len()
            + es.len() - i,
    decreases es.len() - i,
{
    if i < es.len() {
        let value = eval(es[i], state, fuel);
        if value.result is Ok {
            lemma_list_length(es, i + 1, value.state, fuel, values.push(value.result->Ok_0));
        }
    }
}

proof fn lemma_list_keeps_well_formed(
    es: Seq<ExpressionView>,
    i: int,
    state: StateView,
    fuel: nat,
    values: Seq<ValueView>,
)
    requires
        state_well_formed(state),
        all_well_formed(values),
    ensures
        state_well_formed(eval_all(es, i, state, fuel, values).state),
        eval_all(es, i, state, fuel, values).result matches Ok(list) ==> all_well_formed(list),
    decreases fuel, es, es.len() - i,
{
    if 0 <= i < es.len() {
        law_expression_keeps_well_formed(es[i], state, fuel);
        let value = eval(es[i], state, fuel);
        if value.result is Ok {
            let more = values.push(value.result->Ok_0);
            assert forall|j: int| 0 <= j < more.len() implies well_formed(#[trigger] more[j]) by {
                if j < values.len() {
                    assert(more[j] == values[j]);
                }
            }
            lemma_list_keeps_well_formed(es, i + 1, value.state, fuel, more);
        }
    }
}

proof fn lemma_entries_keep_well_formed(
    entries: Seq<(ExpressionView, ExpressionView)>,
    i: int,
    state: StateView,
    fuel: nat,
    pairs: Seq<(HashableView, ValueView)>,
)
    requires
        state_well_formed(state),
        entries_well_formed(pairs),
    ensures
        state_well_formed(eval_entries(entries, i, state, fuel, pairs).state),
        eval_entries(entries, i, state, fuel, pairs).result matches Ok(list)
            ==> entries_well_formed(list),
    decreases fuel, entries, entries.len() - i,
{
    if 0 <= i < entries.len() {
        law_expression_keeps_well_formed(entries[i].0, state, fuel);
        let key = eval(entries[i].0, state, fuel);
        if key.result is Ok {
            law_expression_keeps_well_formed(entries[i].1, key.state, fuel);
            let value = eval(entries[i].1, key.state, fuel);
            if value.result is Ok {
                match hashable(key.result->Ok_0) {
                    Some(h) => {
                        lemma_store_keeps_well_formed(pairs, h, value.result->Ok_0);
                        lemma_entries_keep_well_formed(
                            entries,
                            i + 1,
                            value.state,
                            fuel,
                            store(pairs, h, value.result->Ok_0),
                        );
                    },
                    None => {},
                }
            }
        }
    }
}

/// Execution keeps the invariant: in a well formed state with a scope a
/// statement leaves the state well formed, and what it returns is well
/// formed.
pub proof fn law_statement_keeps_well_formed(s: StatementView, state: StateView, fuel: nat)
    requires
        state_well_formed(state),
        state.stack.len() > 0,
    ensures
        state_well_formed(exec(s, state, fuel).state),
        exec(s, state, fuel).result matches Ok(flow) ==> flow_well_formed(flow),
    decreases fuel, s, 0nat,
{
    match s {
        StatementView::Declaration { name, initializer } => {
            law_expression_keeps_well_formed(initializer, state, fuel);
            crate::laws::law_expression_keeps_depth(initializer, state, fuel);
            let value = eval(initializer, state, fuel);
            if value.result is Ok {
                lemma_update_keeps_well_formed(
                    value.state,
                    value.state.stack.len() - 1,
                    name,
                    value.result->Ok_0,
                );
            }
        },
        StatementView::Assignment { lvalue, value } => {
            law_expression_keeps_well_formed(value, state, fuel);
            let computed = eval(value, state, fuel);
            if computed.result is Ok {
                match lvalue {
                    LvalueView::Identifier(name) => {
                        lemma_frame_of(computed.state.stack, name, computed.state.stack.len() as int);
                        if computed.state.home(name) >= 0 {
                            lemma_update_keeps_well_formed(
                                computed.state,
                                computed.state.home(name),
                                name,
                                computed.result->Ok_0,
                            );
                        }
                    },
                    _ => {},
                }
            }
        },
        StatementView::UnusedExpression(e) => {
            law_expression_keeps_well_formed(e, state, fuel);
        },
        StatementView::Return(e) => {
            law_expression_keeps_well_formed(e, state, fuel);
        },
        StatementView::Loop { body } => {
            lemma_loop_keeps_well_formed(body, state, fuel);
        },
        StatementView::While { condition, body } => {
            lemma_while_keeps_well_formed(condition, body, state, fuel);
        },
        StatementView::If { branches } => {
            lemma_branches_keep_well_formed(branches, 0, state, fuel);
        },
        StatementView::Block { body } => {
            lemma_push_keeps_well_formed(state, Seq::empty());
            lemma_statements_keep_well_formed(body, 0, state.pushed(), fuel);
            crate::laws::law_statements_keep_depth(body, 0, state.pushed(), fuel);
            if exec_all(body, 0, state.pushed(), fuel).result is Ok {
                lemma_pop_keeps_well_formed(exec_all(body, 0, state.pushed(), fuel).state);
            }
        },
        _ => {},
    }
}

proof fn lemma_statements_keep_well_formed(
    ss: Seq<StatementView>,
    i: int,
    state: StateView,
    fuel: nat,
)
    requires
        state_well_formed(state),
        state.stack.len() > 0,
    ensures
        state_well_formed(exec_all(ss, i, state, fuel).state),
        exec_all(ss, i, state, fuel).result matches Ok(flow) ==> flow_well_formed(flow),
    decreases fuel, ss, ss.len() - i,
{
    if 0 <= i < ss.len() {
        law_statement_keeps_well_formed(ss[i], state, fuel);
        crate::laws::law_statement_keeps_depth(ss[i], state, fuel);
        let step = exec(ss[i], state, fuel);
        if step.result is Ok {
            lemma_statements_keep_well_formed(ss, i + 1, step.state, fuel);
        }
    }
}

proof fn lemma_branches_keep_well_formed(
    branches: Seq<(ExpressionView, Seq<StatementView>)>,
    i: int,
    state: StateView,
    fuel: nat,
)
    requires
        state_well_formed(state),
        state.stack.len() > 0,
    ensures
        state_well_formed(exec_branches(branches, i, state, fuel).state),
        exec_branches(branches, i, state, fuel).result matches Ok(flow) ==> flow_well_formed(flow),
    decreases fuel, branches, branches.len() - i,
{
    if 0 <= i < branches.len() {
        law_expression_keeps_well_formed(branches[i].0, state, fuel);
        crate::laws::law_expression_keeps_depth(branches[i].0, state, fuel);
        let condition = eval(branches[i].0, state, fuel);
        if condition.result is Ok {
            lemma_push_keeps_well_formed(condition.state, Seq::empty());
            lemma_statements_keep_well_formed(branches[i].1, 0, condition.state.pushed(), fuel);
            crate::laws::law_statements_keep_depth(branches[i].1, 0, condition.state.pushed(), fuel);
            if exec_all(branches[i].1, 0, condition.state.pushed(), fuel).result is Ok {
                lemma_pop_keeps_well_formed(
                    exec_all(branches[i].1, 0, condition.state.pushed(), fuel).state,
                );
            }
            lemma_branches_keep_well_formed(branches, i + 1, condition.state, fuel);
        }
    }
}

proof fn lemma_loop_keeps_well_formed(body: Seq<StatementView>, state: StateView, fuel: nat)
    requires
        state_well_formed(state),
        state.stack.len() > 0,
    ensures
        state_well_formed(run_loop(body, state, fuel).state),
        run_loop(body, state, fuel).result matches Ok(flow) ==> flow_well_formed(flow),
    decreases fuel, body, body.len() + 1,
{
    if fuel > 0 {
        lemma_push_keeps_well_formed(state, Seq::empty());
        lemma_statements_keep_well_formed(body, 0, state.pushed(), (fuel - 1) as nat);
        crate::laws::law_statements_keep_depth(body, 0, state.pushed(), (fuel - 1) as nat);
        let step = exec_all(body, 0, state.pushed(), (fuel - 1) as nat);
        if step.result is Ok {
            lemma_pop_keeps_well_formed(step.state);
            lemma_loop_keeps_well_formed(body, step.state.popped(), (fuel - 1) as nat);
        }
    }
}

proof fn lemma_while_keeps_well_formed(
    condition: ExpressionView,
    body: Seq<StatementView>,
    state: StateView,
    fuel: nat,
)
    requires
        state_well_formed(state),
        state.stack.len() > 0,
    ensures
        state_well_formed(run_while(condition, body, state, fuel).state),
        run_while(condition, body, state, fuel).result matches Ok(flow) ==> flow_well_formed(flow),
    decreases fuel, body, body.len() + 1,
{
    if fuel > 0 {
        law_expression_keeps_well_formed(condition, state, (fuel - 1) as nat);
        crate::laws::law_expression_keeps_depth(condition, state, (fuel - 1) as nat);
        let test = eval(condition, state, (fuel - 1) as nat);
        if test.result is Ok {
            lemma_push_keeps_well_formed(test.state, Seq::empty());
            lemma_statements_keep_well_formed(body, 0, test.state.pushed(), (fuel - 1) as nat);
            crate::laws::law_statements_keep_depth(body, 0, test.state.pushed(), (fuel - 1) as nat);
            let step = exec_all(body, 0, test.state.pushed(), (fuel - 1) as nat);
            if step.result is Ok {
                lemma_pop_keeps_well_formed(step.state);
                lemma_while_keeps_well_formed(
                    condition,
                    body,
                    step.state.popped(),
                    (fuel - 1) as nat,
                );
            }
        }
    }
}

} // verus!
