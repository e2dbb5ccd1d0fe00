//! The evaluator: it walks the syntax tree against a stack of scopes.

use crate::ast::{
    branches_view, clone_identifiers, clone_statements, entries_view, expressions_view,
    identifiers_view, statements_view, Ast, BinaryOperation, Expression, Identifier, Lvalue,
    Statement,
};
use crate::operators::{binary_operation, outcome_view, unary_operation};
use crate::semantics::{
    answer, eval, eval_all, eval_entries, exec, exec_all, exec_branches, frame_for, holds, invoke,
    run,
    run_loop, run_while, settle,
};
use crate::state::{
    frame_of, replies_view, ControlFlow, FloatOrder, FloatReply, FloatRequest, FlowView, Halt,
    HaltView, InterpreterError, Scope, State, StateView,
};
use crate::value::{
    clone_value, index_of, pairs_view, store, store_pair, values_view, HashableValue, HashableView, Value,
    ValueView,
};
use vstd::prelude::*;

verus! {

/// The view of how a statement ended.
pub open spec fn flow_view(r: Result<ControlFlow, Halt>) -> Result<FlowView, HaltView> {
    match r {
        Ok(flow) => Ok(flow@),
        Err(h) => Err(h@),
    }
}

/// Finds what a name stands for, from the innermost scope outwards.
pub fn lookup<'a>(state: &'a State, identifier: &Identifier) -> (r: Result<
    &'a Value,
    InterpreterError,
>)
    ensures
        match r {
            Ok(value) => state@.home(identifier@) >= 0 && value@ == state@.value(identifier@),
            Err(e) => e == InterpreterError::UnknownIdentifier && state@.home(identifier@) < 0,
        },
{
    let mut k: usize = state.stack.len();
    while k > 0
        invariant
            k <= state.stack@.len(),
            state@.home(identifier@) == frame_of(state@.stack, identifier@, k as int),
        decreases k,
    {
        let scope = &state.stack[k - 1];
        let at = scope.position(identifier);
        if at < scope.variables.len() {
            return Ok(&scope.variables[at].1);
        }
        k -= 1;
    }
    Err(InterpreterError::UnknownIdentifier)
}

/// Two states are the same but for the value of one variable.
spec fn differs_in_one_value(before: State, after: State, k: int, at: int) -> bool {
    &&& after.replies == before.replies
    &&& after.used == before.used
    &&& after.stack@.len() == before.stack@.len()
    &&& forall|j: int| 0 <= j < before.stack@.len() && j != k ==> after.stack@[j] == before.stack@[j]
    &&& after.stack@[k].variables@.len() == before.stack@[k].variables@.len()
    &&& forall|j: int|
        0 <= j < before.stack@[k].variables@.len() && j != at ==> after.stack@[k].variables@[j]
            == before.stack@[k].variables@[j]
    &&& after.stack@[k].variables@[at].0 == before.stack@[k].variables@[at].0
}

/// A state that differs in the value of the variable that a name stands for
/// is the state with that value assigned to the name.
proof fn lemma_one_value_assigned(before: State, after: State, k: int, at: int, name: Seq<char>)
    requires
        0 <= k < before.stack@.len(),
        0 <= at < before.stack@[k].variables@.len(),
        before@.home(name) == k,
        index_of(before@.stack[k], name, 0) == at,
        differs_in_one_value(before, after, k, at),
    ensures
        after@ == before@.assigned(name, after.stack@[k].variables@[at].1@),
{
    crate::value::lemma_index_of(before@.stack[k], name, 0);
    let value = after.stack@[k].variables@[at].1@;
    assert(after.stack@[k]@ =~= store(before@.stack[k], name, value));
    assert(after@.stack =~= before@.stack.update(k, store(before@.stack[k], name, value)));
    assert(replies_view(after.replies@) =~= replies_view(before.replies@));
}

/// Finds the place of what a name stands for, from the innermost scope
/// outwards, so that a value can be put there.
pub fn lookup_mut<'a>(state: &'a mut State, identifier: &Identifier) -> (r: Result<
    &'a mut Value,
    InterpreterError,
>)
    ensures
        match r {
            Ok(value) => {
                &&& old(state)@.home(identifier@) >= 0
                &&& (*value)@ == old(state)@.value(identifier@)
                &&& final(state)@ == old(state)@.assigned(identifier@, (*final(value))@)
                &&& final(state)@.stack.len() == old(state)@.stack.len()
            },
            Err(e) => e == InterpreterError::UnknownIdentifier && old(state)@.home(identifier@) < 0
                && final(state)@ == old(state)@,
        },
{
    let mut k: usize = state.stack.len();
    while k > 0
        invariant
            *state == *old(state),
            k <= state.stack@.len(),
            state@.home(identifier@) == frame_of(state@.stack, identifier@, k as int),
        decreases k,
    {
        let at = state.stack[k - 1].position(identifier);
        if at < state.stack[k - 1].variables.len() {
            proof {
                let found = *state;
                assert forall|changed: State| differs_in_one_value(found, changed, k - 1, at as int)
                    implies #[trigger] changed@ == found@.assigned(
                    identifier@,
                    changed.stack@[k - 1].variables@[at as int].1@,
                ) by {
                    lemma_one_value_assigned(found, changed, k - 1, at as int, identifier@);
                }
            }
            let r = &mut state.stack[k - 1].variables[at].1;
            return Ok(r);
        }
        k -= 1;
    }
    Err(InterpreterError::UnknownIdentifier)
}

/// Binds a name in the innermost scope.
pub fn declare(state: &mut State, name: Identifier, value: Value)
    requires
        old(state)@.stack.len() > 0,
    ensures
        final(state)@ == old(state)@.declared(name@, value@),
        final(state)@.stack.len() == old(state)@.stack.len(),
{
    let ghost before = state@;
    let top = state.stack.len() - 1;
    state.stack[top].insert(name, value);
    assert(state@.stack =~= before.stack.update(
        top as int,
        store(before.stack.last(), name@, value@),
    ));
}

fn holds_of(operation: BinaryOperation, order: FloatOrder) -> (r: bool)
    ensures
        r == holds(operation, order),
{
    match operation {
        BinaryOperation::Lt => order == FloatOrder::Less,
        BinaryOperation::LtEq => order == FloatOrder::Less || order == FloatOrder::Equal,
        BinaryOperation::Gt => order == FloatOrder::Greater,
        BinaryOperation::GtEq => order == FloatOrder::Greater || order == FloatOrder::Equal,
        _ => false,
    }
}

/// The value that an answer gives to a floating-point operation.
pub fn settle_reply(request: &FloatRequest, reply: &FloatReply) -> (r: Option<Value>)
    ensures
        match r {
            Some(value) => settle(request@, reply@) == Some(value@),
            None => settle(request@, reply@) is None,
        },
{
    match (request, reply) {
        (FloatRequest::Negate(_), FloatReply::Number(f)) => Some(Value::Float(f.clone())),
        (FloatRequest::Arithmetic(_, _, _), FloatReply::Number(f)) => Some(
            Value::Float(f.clone()),
        ),
        (FloatRequest::Compare(operation, _, _), FloatReply::Order(order)) => Some(
            Value::Bool(holds_of(*operation, *order)),
        ),
        _ => None,
    }
}

/// Resolves a request for a floating-point operation with the next answer
/// that the state holds.
pub fn resolve(state: &mut State, outcome: Result<Value, Halt>) -> (r: Result<Value, Halt>)
    ensures
        outcome_view(r) == answer(old(state)@, outcome_view(outcome)).result,
        final(state)@ == answer(old(state)@, outcome_view(outcome)).state,
        final(state)@.stack == old(state)@.stack,
{
    match outcome {
        Err(Halt::FloatNeeded(request)) => {
            if state.used < state.replies.len() {
                match settle_reply(&request, &state.replies[state.used]) {
                    Some(value) => {
                        state.used = state.used + 1;
                        Ok(value)
                    },
                    None => Err(Halt::FloatNeeded(request)),
                }
            } else {
                Err(Halt::FloatNeeded(request))
            }
        },
        other => other,
    }
}

/// Makes the frame of a call.
fn bind(parameters: &Vec<Identifier>, values: &Vec<Value>) -> (r: Scope)
    requires
        parameters@.len() == values@.len(),
    ensures
        r@ == frame_for(
            identifiers_view(parameters@),
            values_view(values@),
            0,
            Seq::empty(),
        ),
{
    let mut frame = Scope::new();
    let mut i: usize = 0;
    while i < parameters.len()
        invariant
            i <= parameters@.len(),
            parameters@.len() == values@.len(),
            frame_for(identifiers_view(parameters@), values_view(values@), i as int, frame@)
                == frame_for(
                identifiers_view(parameters@),
                values_view(values@),
                0,
                Seq::empty(),
            ),
        decreases parameters@.len() - i,
    {
        frame.insert(parameters[i].clone(), clone_value(&values[i]));
        i += 1;
    }
    frame
}

/// Evaluates an expression.
pub fn evaluate_expression(state: &mut State, expression: &Expression, budget: u64) -> (r: Result<
    Value,
    Halt,
>)
    ensures
        outcome_view(r) == eval(expression@, old(state)@, budget as nat).result,
        final(state)@ == eval(expression@, old(state)@, budget as nat).state,
        r is Ok ==> final(state)@.stack.len() == old(state)@.stack.len(),
    decreases budget, *expression, 0nat,
{
    match expression {
        Expression::True => Ok(Value::Bool(true)),
        Expression::False => Ok(Value::Bool(false)),
        Expression::Null => Ok(Value::Null),
        Expression::Identifier(name) => match lookup(state, name) {
            Ok(value) => Ok(clone_value(value)),
            Err(e) => Err(Halt::Error(e)),
        },
        Expression::Integer(n) => Ok(Value::Integer(*n)),
        Expression::Float(f) => Ok(Value::Float(f.clone())),
        Expression::String(s) => Ok(Value::String(s.clone())),
        Expression::Array(items) => match evaluate_all(state, items, budget) {
            Ok(values) => Ok(Value::Array(values)),
            Err(h) => Err(h),
        },
        Expression::Mapping(entries) => match evaluate_entries(state, entries, budget) {
            Ok(pairs) => Ok(Value::Mapping(pairs)),
            Err(h) => Err(h),
        },
        Expression::Function(parameters, body) => Ok(
            Value::Function(clone_identifiers(parameters), clone_statements(body)),
        ),
        Expression::Call(callee, arguments) => {
            match evaluate_expression(state, callee, budget) {
                Err(h) => Err(h),
                Ok(function) => call(state, function, arguments, budget),
            }
        },
        Expression::Member(_, _) => Err(Halt::Error(InterpreterError::UnsupportedOperation)),
        Expression::UnaryOperation(operand, operation) => {
            match evaluate_expression(state, operand, budget) {
                Err(h) => Err(h),
                Ok(value) => resolve(state, unary_operation(value, *operation)),
            }
        },
        Expression::BinaryOperation(operands, operation) => {
            let lhs = match evaluate_expression(state, &operands.0, budget) {
                Ok(lhs) => lhs,
                Err(h) => {
                    return Err(h);
                },
            };
            let rhs = match evaluate_expression(state, &operands.1, budget) {
                Ok(rhs) => rhs,
                Err(h) => {
                    return Err(h);
                },
            };
            resolve(state, binary_operation(lhs, rhs, *operation))
        },
    }
}

/// Calls a function value on arguments that are still to be evaluated.
pub fn call(state: &mut State, function: Value, arguments: &Vec<Expression>, budget: u64) -> (r:
    Result<Value, Halt>)
    ensures
        outcome_view(r) == invoke(
            function@,
            expressions_view(arguments@),
            old(state)@,
            budget as nat,
        ).result,
        final(state)@ == invoke(
            function@,
            expressions_view(arguments@),
            old(state)@,
            budget as nat,
        ).state,
        r is Ok ==> final(state)@.stack.len() == old(state)@.stack.len(),
    decreases budget, *arguments, 1nat,
{
    let ghost called = function@;
    match function {
        Value::Function(parameters, body) => {
            assert(called == ValueView::Function(
                identifiers_view(parameters@),
                statements_view(body@),
            ));
            if arguments.len() != parameters.len() {
                return Err(Halt::Error(InterpreterError::WrongArgumentCount));
            }
            let values = match evaluate_all(state, arguments, budget) {
                Ok(values) => values,
                Err(h) => {
                    return Err(h);
                },
            };
            if budget == 0 {
                return Err(Halt::OutOfBudget);
            }
            let frame = bind(&parameters, &values);
            let ghost before = state@;
            state.stack.push(frame);
            assert(state@.stack =~= before.stack.push(frame@));
            match interpret_all(state, &body, budget - 1) {
                Err(h) => Err(h),
                Ok(flow) => {
                    state.pop();
                    match flow {
                        ControlFlow::Normal => Ok(Value::Null),
                        ControlFlow::Return(value) => Ok(value),
                        _ => Err(Halt::Error(InterpreterError::UpwardControlFlowReachedTopLevel)),
                    }
                },
            }
        },
        _ => Err(Halt::Error(InterpreterError::ExpectedFunction)),
    }
}

/// Evaluates expressions in their order.
pub fn evaluate_all(state: &mut State, expressions: &Vec<Expression>, budget: u64) -> (r: Result<
    Vec<Value>,
    Halt,
>)
    ensures
        match r {
            Ok(values) => eval_all(
                expressions_view(expressions@),
                0,
                old(state)@,
                budget as nat,
                Seq::empty(),
            ).result == Ok::<Seq<ValueView>, HaltView>(values_view(values@)),
            Err(h) => eval_all(
                expressions_view(expressions@),
                0,
                old(state)@,
                budget as nat,
                Seq::empty(),
            ).result == Err::<Seq<ValueView>, HaltView>(h@),
        },
        final(state)@ == eval_all(
            expressions_view(expressions@),
            0,
            old(state)@,
            budget as nat,
            Seq::empty(),
        ).state,
        r is Ok ==> final(state)@.stack.len() == old(state)@.stack.len(),
        r matches Ok(values) ==> values@.len() == expressions@.len(),
    decreases budget, *expressions, 0nat,
{
    let ghost goal = eval_all(
        expressions_view(expressions@),
        0,
        state@,
        budget as nat,
        Seq::empty(),
    );
    let mut values: Vec<Value> = Vec::new();
    assert(values_view(values@) =~= Seq::empty());
    let mut i: usize = 0;
    while i < expressions.len()
        invariant
            i <= expressions@.len(),
            values@.len() == i,
            state@.stack.len() == old(state)@.stack.len(),
            goal == eval_all(
                expressions_view(expressions@),
                0,
                old(state)@,
                budget as nat,
                Seq::empty(),
            ),
            goal == eval_all(
                expressions_view(expressions@),
                i as int,
                state@,
                budget as nat,
                values_view(values@),
            ),
        decreases expressions@.len() - i,
    {
        let ghost so_far = values_view(values@);
        match evaluate_expression(state, &expressions[i], budget) {
            Err(h) => {
                return Err(h);
            },
            Ok(value) => {
                values.push(value);
                assert(values_view(values@) =~= so_far.push(value@));
            },
        }
        i += 1;
    }
    Ok(values)
}

/// Evaluates the entries of a map literal in their order.
pub fn evaluate_entries(
    state: &mut State,
    entries: &Vec<(Expression, Expression)>,
    budget: u64,
) -> (r: Result<Vec<(HashableValue, Value)>, Halt>)
    ensures
        match r {
            Ok(pairs) => eval_entries(
                entries_view(entries@),
                0,
                old(state)@,
                budget as nat,
                Seq::empty(),
            ).result == Ok::<Seq<(HashableView, ValueView)>, HaltView>(pairs_view(pairs@)),
            Err(h) => eval_entries(
                entries_view(entries@),
                0,
                old(state)@,
                budget as nat,
                Seq::empty(),
            ).result == Err::<Seq<(HashableView, ValueView)>, HaltView>(h@),
        },
        final(state)@ == eval_entries(
            entries_view(entries@),
            0,
            old(state)@,
            budget as nat,
            Seq::empty(),
        ).state,
        r is Ok ==> final(state)@.stack.len() == old(state)@.stack.len(),
    decreases budget, *entries, 0nat,
{
    let ghost goal = eval_entries(entries_view(entries@), 0, state@, budget as nat, Seq::empty());
    let mut pairs: Vec<(HashableValue, Value)> = Vec::new();
    assert(pairs_view(pairs@) =~= Seq::empty());
    let mut i: usize = 0;
    while i < entries.len()
        invariant
            i <= entries@.len(),
            state@.stack.len() == old(state)@.stack.len(),
            goal == eval_entries(
                entries_view(entries@),
                0,
                old(state)@,
                budget as nat,
                Seq::empty(),
            ),
            goal == eval_entries(
                entries_view(entries@),
                i as int,
                state@,
                budget as nat,
                pairs_view(pairs@),
            ),
        decreases entries@.len() - i,
    {
        let key = match evaluate_expression(state, &entries[i].0, budget) {
            Ok(key) => key,
            Err(h) => {
                return Err(h);
            },
        };
        let value = match evaluate_expression(state, &entries[i].1, budget) {
            Ok(value) => value,
            Err(h) => {
                return Err(h);
            },
        };
        match key.try_as_hashable() {
            None => {
                return Err(Halt::Error(InterpreterError::MapKeyNotHashable));
            },
            Some(hashed) => {
                store_pair(&mut pairs, hashed, value);
            },
        }
        i += 1;
    }
    Ok(pairs)
}

/// Executes a statement. The stack has to hold a scope.
pub fn interpret_statement(state: &mut State, statement: &Statement, budget: u64) -> (r: Result<
    ControlFlow,
    Halt,
>)
    requires
        old(state)@.stack.len() > 0,
    ensures
        flow_view(r) == exec(statement@, old(state)@, budget as nat).result,
        final(state)@ == exec(statement@, old(state)@, budget as nat).state,
        r is Ok ==> final(state)@.stack.len() == old(state)@.stack.len(),
    decreases budget, *statement, 0nat,
{
    match statement {
        Statement::Declaration { name, initializer } => {
            let top = state.stack.len() - 1;
            if state.stack[top].position(name) < state.stack[top].variables.len() {
                return Err(Halt::Error(InterpreterError::Redeclaration));
            }
            match evaluate_expression(state, initializer, budget) {
                Err(h) => Err(h),
                Ok(value) => {
                    declare(state, name.clone(), value);
                    Ok(ControlFlow::Normal)
                },
            }
        },
        Statement::Assignment { lvalue, value } => {
            match evaluate_expression(state, value, budget) {
                Err(h) => Err(h),
                Ok(computed) => match lvalue {
                    Lvalue::Identifier(name) => match lookup_mut(state, name) {
                        Ok(place) => {
                            *place = computed;
                            Ok(ControlFlow::Normal)
                        },
                        Err(e) => Err(Halt::Error(e)),
                    },
                    _ => Err(Halt::Error(InterpreterError::UnsupportedOperation)),
                },
            }
        },
        Statement::UnusedExpression(expression) => {
            match evaluate_expression(state, expression, budget) {
                Err(h) => Err(h),
                Ok(_) => Ok(ControlFlow::Normal),
            }
        },
        Statement::Return(expression) => {
            match evaluate_expression(state, expression, budget) {
                Err(h) => Err(h),
                Ok(value) => Ok(ControlFlow::Return(value)),
            }
        },
        Statement::Break => Ok(ControlFlow::Break),
        Statement::Continue => Ok(ControlFlow::Continue),
        Statement::Loop { body } => interpret_loop(state, body, budget),
        Statement::For { loop_var, iterator, body } => Err(
            Halt::Error(InterpreterError::UnsupportedOperation),
        ),
        Statement::While { condition, body } => interpret_while(state, condition, body, budget),
        Statement::If { branches } => interpret_branches(state, branches, budget),
        Statement::Block { body } => {
            state.push();
            match interpret_all(state, body, budget) {
                Err(h) => Err(h),
                Ok(flow) => {
                    state.pop();
                    Ok(flow)
                },
            }
        },
    }
}

/// Executes statements one after the other, up to the first that does not
/// end normally.
pub fn interpret_all(state: &mut State, statements: &Vec<Statement>, budget: u64) -> (r: Result<
    ControlFlow,
    Halt,
>)
    requires
        old(state)@.stack.len() > 0,
    ensures
        flow_view(r) == exec_all(
            statements_view(statements@),
            0,
            old(state)@,
            budget as nat,
        ).result,
        final(state)@ == exec_all(statements_view(statements@), 0, old(state)@, budget as nat).state,
        r is Ok ==> final(state)@.stack.len() == old(state)@.stack.len(),
    decreases budget, *statements, 0nat,
{
    let ghost goal = exec_all(statements_view(statements@), 0, state@, budget as nat);
    let mut i: usize = 0;
    while i < statements.len()
        invariant
            i <= statements@.len(),
            state@.stack.len() == old(state)@.stack.len(),
            old(state)@.stack.len() > 0,
            goal == exec_all(statements_view(statements@), 0, old(state)@, budget as nat),
            goal == exec_all(statements_view(statements@), i as int, state@, budget as nat),
        decreases statements@.len() - i,
    {
        match interpret_statement(state, &statements[i], budget) {
            Err(h) => {
                return Err(h);
            },
            Ok(ControlFlow::Normal) => {},
            Ok(flow) => {
                return Ok(flow);
            },
        }
        i += 1;
    }
    Ok(ControlFlow::Normal)
}

/// Executes the branches of an `if`.
fn interpret_branches(
    state: &mut State,
    branches: &Vec<(Expression, Vec<Statement>)>,
    budget: u64,
) -> (r: Result<ControlFlow, Halt>)
    requires
        old(state)@.stack.len() > 0,
    ensures
        flow_view(r) == exec_branches(
            branches_view(branches@),
            0,
            old(state)@,
            budget as nat,
        ).result,
        final(state)@ == exec_branches(branches_view(branches@), 0, old(state)@, budget as nat).state,
        r is Ok ==> final(state)@.stack.len() == old(state)@.stack.len(),
    decreases budget, *branches, 0nat,
{
    let ghost goal = exec_branches(branches_view(branches@), 0, state@, budget as nat);
    let mut i: usize = 0;
    while i < branches.len()
        invariant
            i <= branches@.len(),
            state@.stack.len() == old(state)@.stack.len(),
            old(state)@.stack.len() > 0,
            goal == exec_branches(branches_view(branches@), 0, old(state)@, budget as nat),
            goal == exec_branches(branches_view(branches@), i as int, state@, budget as nat),
        decreases branches@.len() - i,
    {
        match evaluate_expression(state, &branches[i].0, budget) {
            Err(h) => {
                return Err(h);
            },
            Ok(Value::Bool(true)) => {
                state.push();
                match interpret_all(state, &branches[i].1, budget) {
                    Err(h) => {
                        return Err(h);
                    },
                    Ok(flow) => {
                        state.pop();
                        return Ok(flow);
                    },
                }
            },
            Ok(Value::Bool(false)) => {},
            Ok(_) => {
                return Err(Halt::Error(InterpreterError::ExpectedBool));
            },
        }
        i += 1;
    }
    Ok(ControlFlow::Normal)
}

/// Executes a `loop`.
fn interpret_loop(state: &mut State, body: &Vec<Statement>, budget: u64) -> (r: Result<
    ControlFlow,
    Halt,
>)
    requires
        old(state)@.stack.len() > 0,
    ensures
        flow_view(r) == run_loop(statements_view(body@), old(state)@, budget as nat).result,
        final(state)@ == run_loop(statements_view(body@), old(state)@, budget as nat).state,
        r is Ok ==> final(state)@.stack.len() == old(state)@.stack.len(),
    decreases budget, *body, 1nat,
{
    let ghost goal = run_loop(statements_view(body@), state@, budget as nat);
    let mut left: u64 = budget;
    loop
        invariant
            left <= budget,
            state@.stack.len() == old(state)@.stack.len(),
            old(state)@.stack.len() > 0,
            goal == run_loop(statements_view(body@), old(state)@, budget as nat),
            goal == run_loop(statements_view(body@), state@, left as nat),
        decreases left,
    {
        if left == 0 {
            return Err(Halt::OutOfBudget);
        }
        state.push();
        match interpret_all(state, body, left - 1) {
            Err(h) => {
                return Err(h);
            },
            Ok(flow) => {
                state.pop();
                match flow {
                    ControlFlow::Break => {
                        return Ok(ControlFlow::Normal);
                    },
                    ControlFlow::Return(value) => {
                        return Ok(ControlFlow::Return(value));
                    },
                    _ => {},
                }
            },
        }
        left -= 1;
    }
}

/// Executes a `while`.
fn interpret_while(
    state: &mut State,
    condition: &Expression,
    body: &Vec<Statement>,
    budget: u64,
) -> (r: Result<ControlFlow, Halt>)
    requires
        old(state)@.stack.len() > 0,
    ensures
        flow_view(r) == run_while(
            condition@,
            statements_view(body@),
            old(state)@,
            budget as nat,
        ).result,
        final(state)@ == run_while(
            condition@,
            statements_view(body@),
            old(state)@,
            budget as nat,
        ).state,
        r is Ok ==> final(state)@.stack.len() == old(state)@.stack.len(),
    decreases budget, *body, 1nat,
{
    let ghost goal = run_while(condition@, statements_view(body@), state@, budget as nat);
    let mut left: u64 = budget;
    loop
        invariant
            left <= budget,
            state@.stack.len() == old(state)@.stack.len(),
            old(state)@.stack.len() > 0,
            goal == run_while(condition@, statements_view(body@), old(state)@, budget as nat),
            goal == run_while(condition@, statements_view(body@), state@, left as nat),
        decreases left,
    {
        if left == 0 {
            return Err(Halt::OutOfBudget);
        }
        match evaluate_expression(state, condition, left - 1) {
            Err(h) => {
                return Err(h);
            },
            Ok(Value::Bool(false)) => {
                return Ok(ControlFlow::Normal);
            },
            Ok(Value::Bool(true)) => {},
            Ok(_) => {
                return Err(Halt::Error(InterpreterError::ExpectedBool));
            },
        }
        state.push();
        match interpret_all(state, body, left - 1) {
            Err(h) => {
                return Err(h);
            },
            Ok(flow) => {
                state.pop();
                match flow {
                    ControlFlow::Break => {
                        return Ok(ControlFlow::Normal);
                    },
                    ControlFlow::Return(value) => {
                        return Ok(ControlFlow::Return(value));
                    },
                    _ => {},
                }
            },
        }
        left -= 1;
    }
}

/// Runs a program in a fresh scope, on a budget of loop iterations and
/// nested calls, with the answers to its first floating-point operations.
pub fn interpret(ast: &Ast, budget: u64, replies: Vec<FloatReply>) -> (r: Result<(), Halt>)
    ensures
        match r {
            Ok(_) => run(
                ast@,
                StateView { stack: Seq::empty(), replies: replies_view(replies@), used: 0 },
                budget as nat,
            ).result == Ok::<(), HaltView>(()),
            Err(h) => run(
                ast@,
                StateView { stack: Seq::empty(), replies: replies_view(replies@), used: 0 },
                budget as nat,
            ).result == Err::<(), HaltView>(h@),
        },
{
    let mut state = State::with_replies(replies);
    state.push();
    match interpret_all(&mut state, &ast.0, budget) {
        Err(h) => Err(h),
        Ok(ControlFlow::Normal) => Ok(()),
        Ok(_) => Err(Halt::Error(InterpreterError::UpwardControlFlowReachedTopLevel)),
    }
}

} // verus!
