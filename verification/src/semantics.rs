//! The meaning of programs: what an expression evaluates to and what a
//! statement does to the state, as functions of the syntax tree.
//!
//! `fuel` bounds the work: every loop iteration and every call runs on one
//! unit less than what surrounds it, and none runs on nothing.

use crate::ast::{
    BinaryOperation, ExpressionView, LvalueView, StatementView, UnaryOperation,
};
use crate::state::{
    FloatOrder, FloatReplyView, FloatRequestView, FlowView, Frame, HaltView, InterpreterError,
    StateView,
};
use crate::value::{has_key, hashable, store, value_of, HashableView, ValueView};
use vstd::prelude::*;

verus! {

/// The outcome of one step of an evaluation, and the state behind it.
pub struct Step<T> {
    pub result: Result<T, HaltView>,
    pub state: StateView,
}

pub open spec fn ok<T>(value: T, state: StateView) -> Step<T> {
    Step { result: Ok(value), state }
}

pub open spec fn halt<T>(reason: HaltView, state: StateView) -> Step<T> {
    Step { result: Err(reason), state }
}

pub open spec fn fault<T>(kind: InterpreterError, state: StateView) -> Step<T> {
    Step { result: Err(HaltView::Error(kind)), state }
}

/// The 32-bit signed integer that a number wraps around to.
pub open spec fn wrap32(n: int) -> int {
    let m = n % 0x1_0000_0000;
    if m > 0x7fff_ffff {
        m - 0x1_0000_0000
    } else {
        m
    }
}

/// The quotient of a division that rounds towards zero, for a divisor that
/// is not zero.
pub open spec fn quotient(x: int, d: int) -> int {
    if x == 0 {
        0
    } else if x > 0 && d > 0 {
        x / d
    } else if x < 0 && d < 0 {
        (x * -1) / (d * -1)
    } else if x < 0 {
        ((x * -1) / d) * -1
    } else {
        (x / (d * -1)) * -1
    }
}

/// The remainder of that division, which has the sign of the dividend.
pub open spec fn remainder(x: int, d: int) -> int {
    if x == 0 {
        0
    } else if x > 0 && d > 0 {
        x % d
    } else if x < 0 && d < 0 {
        ((x * -1) % (d * -1)) * -1
    } else if x < 0 {
        ((x * -1) % d) * -1
    } else {
        x % (d * -1)
    }
}

/// What a unary operator makes of a value. A floating-point operand gives a
/// request for the operation.
pub open spec fn apply_unary(operand: ValueView, operation: UnaryOperation) -> Result<
    ValueView,
    HaltView,
> {
    match (operand, operation) {
        (ValueView::Bool(b), UnaryOperation::Not) => Ok(ValueView::Bool(!b)),
        (ValueView::Integer(i), UnaryOperation::Neg) => Ok(ValueView::Integer(wrap32(-i))),
        (ValueView::Float(f), UnaryOperation::Neg) => Err(
            HaltView::FloatNeeded(FloatRequestView::Negate(f)),
        ),
        _ => Err(HaltView::Error(InterpreterError::UnsupportedOperation)),
    }
}

/// What stands in a collection under a key: an array is indexed by
/// position, a map by a key that can be hashed.
pub open spec fn index(collection: ValueView, key: ValueView) -> Result<ValueView, HaltView> {
    match collection {
        ValueView::Array(items) => match key {
            ValueView::Integer(i) => if 0 <= i < items.len() {
                Ok(items[i])
            } else {
                Err(HaltView::Error(InterpreterError::UnsupportedOperation))
            },
            _ => Err(HaltView::Error(InterpreterError::UnsupportedOperation)),
        },
        ValueView::Mapping(entries) => match hashable(key) {
            None => Err(HaltView::Error(InterpreterError::MapKeyNotHashable)),
            Some(k) => if has_key(entries, k) {
                Ok(value_of(entries, k))
            } else {
                Err(HaltView::Error(InterpreterError::UnsupportedOperation))
            },
        },
        _ => Err(HaltView::Error(InterpreterError::UnsupportedOperation)),
    }
}

/// What a binary operator makes of two integers.
pub open spec fn apply_integers(a: int, b: int, operation: BinaryOperation) -> Result<
    ValueView,
    HaltView,
> {
    match operation {
        BinaryOperation::Add => Ok(ValueView::Integer(wrap32(a + b))),
        BinaryOperation::Sub => Ok(ValueView::Integer(wrap32(a - b))),
        BinaryOperation::Mul => Ok(ValueView::Integer(wrap32(a * b))),
        BinaryOperation::Div => if b == 0 {
            Err(HaltView::Error(InterpreterError::UnsupportedOperation))
        } else {
            Ok(ValueView::Integer(wrap32(quotient(a, b))))
        },
        BinaryOperation::Mod => if b == 0 {
            Err(HaltView::Error(InterpreterError::UnsupportedOperation))
        } else {
            Ok(ValueView::Integer(wrap32(remainder(a, b))))
        },
        BinaryOperation::Eq => Ok(ValueView::Bool(a == b)),
        BinaryOperation::NoEq => Ok(ValueView::Bool(a != b)),
        BinaryOperation::Lt => Ok(ValueView::Bool(a < b)),
        BinaryOperation::LtEq => Ok(ValueView::Bool(a <= b)),
        BinaryOperation::Gt => Ok(ValueView::Bool(a > b)),
        BinaryOperation::GtEq => Ok(ValueView::Bool(a >= b)),
        _ => Err(HaltView::Error(InterpreterError::UnsupportedOperation)),
    }
}

/// What a binary operator makes of two values. Two floating-point operands
/// give a request for the operation.
pub open spec fn apply_binary(lhs: ValueView, rhs: ValueView, operation: BinaryOperation) -> Result<
    ValueView,
    HaltView,
> {
    if operation == BinaryOperation::Index {
        index(lhs, rhs)
    } else {
        match (lhs, rhs) {
            (ValueView::Integer(a), ValueView::Integer(b)) => apply_integers(a, b, operation),
            (ValueView::Float(a), ValueView::Float(b)) => match operation {
                BinaryOperation::Add
                | BinaryOperation::Sub
                | BinaryOperation::Mul
                | BinaryOperation::Div => Err(
                    HaltView::FloatNeeded(FloatRequestView::Arithmetic(operation, a, b)),
                ),
                BinaryOperation::Lt
                | BinaryOperation::LtEq
                | BinaryOperation::Gt
                | BinaryOperation::GtEq => Err(
                    HaltView::FloatNeeded(FloatRequestView::Compare(operation, a, b)),
                ),
                _ => Err(HaltView::Error(InterpreterError::UnsupportedOperation)),
            },
            (ValueView::Bool(a), ValueView::Bool(b)) => match operation {
                BinaryOperation::And => Ok(ValueView::Bool(a && b)),
                BinaryOperation::Or => Ok(ValueView::Bool(a || b)),
                _ => Err(HaltView::Error(InterpreterError::UnsupportedOperation)),
            },
            _ => Err(HaltView::Error(InterpreterError::UnsupportedOperation)),
        }
    }
}

/// Whether a comparison holds of two numbers in the given order.
pub open spec fn holds(operation: BinaryOperation, order: FloatOrder) -> bool {
    match operation {
        BinaryOperation::Lt => order == FloatOrder::Less,
        BinaryOperation::LtEq => order == FloatOrder::Less || order == FloatOrder::Equal,
        BinaryOperation::Gt => order == FloatOrder::Greater,
        BinaryOperation::GtEq => order == FloatOrder::Greater || order == FloatOrder::Equal,
        _ => false,
    }
}

/// The value that an answer gives to a floating-point operation, where the
/// answer is of the kind that the operation asks for.
pub open spec fn settle(request: FloatRequestView, reply: FloatReplyView) -> Option<ValueView> {
    match (request, reply) {
        (FloatRequestView::Negate(_), FloatReplyView::Number(f)) => Some(ValueView::Float(f)),
        (FloatRequestView::Arithmetic(_, _, _), FloatReplyView::Number(f)) => Some(
            ValueView::Float(f),
        ),
        (FloatRequestView::Compare(operation, _, _), FloatReplyView::Order(order)) => Some(
            ValueView::Bool(holds(operation, order)),
        ),
        _ => None,
    }
}

/// Resolves a request for a floating-point operation with the next answer
/// that the state holds. Without a fitting answer the request stands.
pub open spec fn answer(state: StateView, outcome: Result<ValueView, HaltView>) -> Step<ValueView> {
    match outcome {
        Err(HaltView::FloatNeeded(request)) => if state.used < state.replies.len() && settle(
            request,
            state.replies[state.used as int],
        ) is Some {
            ok(
                settle(request, state.replies[state.used as int])->0,
                StateView { used: state.used + 1, ..state },
            )
        } else {
            halt(HaltView::FloatNeeded(request), state)
        },
        _ => Step { result: outcome, state },
    }
}

/// The frame of a call: each parameter bound to its argument, a later one
/// in place of an earlier one of the same name.
pub open spec fn frame_for(
    parameters: Seq<Seq<char>>,
    arguments: Seq<ValueView>,
    i: int,
    frame: Frame,
) -> Frame
    decreases parameters.len() - i,
{
    if 0 <= i < parameters.len() {
        frame_for(parameters, arguments, i + 1, store(frame, parameters[i], arguments[i]))
    } else {
        frame
    }
}

/// Leaves the scope of a block, a branch or a loop iteration that has run.
pub open spec fn scoped(step: Step<FlowView>) -> Step<FlowView> {
    match step.result {
        Ok(flow) => ok(flow, step.state.popped()),
        Err(_) => step,
    }
}

/// What a call returns once its body has run.
pub open spec fn returned(step: Step<FlowView>) -> Step<ValueView> {
    match step.result {
        Err(reason) => halt(reason, step.state),
        Ok(FlowView::Normal) => ok(ValueView::Null, step.state.popped()),
        Ok(FlowView::Return(value)) => ok(value, step.state.popped()),
        Ok(_) => fault(InterpreterError::UpwardControlFlowReachedTopLevel, step.state.popped()),
    }
}

/// The value of an expression.
pub open spec fn eval(e: ExpressionView, state: StateView, fuel: nat) -> Step<ValueView>
    decreases fuel, e, 0nat,
{
    match e {
        ExpressionView::True => ok(ValueView::Bool(true), state),
        ExpressionView::False => ok(ValueView::Bool(false), state),
        ExpressionView::Null => ok(ValueView::Null, state),
        ExpressionView::Identifier(name) => if state.home(name) >= 0 {
            ok(state.value(name), state)
        } else {
            fault(InterpreterError::UnknownIdentifier, state)
        },
        ExpressionView::Integer(n) => ok(ValueView::Integer(n), state),
        ExpressionView::Float(f) => ok(ValueView::Float(f), state),
        ExpressionView::String(s) => ok(ValueView::String(s), state),
        ExpressionView::Array(items) => {
            let values = eval_all(items, 0, state, fuel, Seq::empty());
            match values.result {
                Err(reason) => halt(reason, values.state),
                Ok(list) => ok(ValueView::Array(list), values.state),
            }
        },
        ExpressionView::Mapping(entries) => {
            let pairs = eval_entries(entries, 0, state, fuel, Seq::empty());
            match pairs.result {
                Err(reason) => halt(reason, pairs.state),
                Ok(list) => ok(ValueView::Mapping(list), pairs.state),
            }
        },
        ExpressionView::Function(parameters, body) => ok(
            ValueView::Function(parameters, body),
            state,
        ),
        ExpressionView::Call(callee, arguments) => {
            let function = eval(*callee, state, fuel);
            match function.result {
                Err(reason) => halt(reason, function.state),
                Ok(f) => invoke(f, arguments, function.state, fuel),
            }
        },
        ExpressionView::Member(_, _) => fault(InterpreterError::UnsupportedOperation, state),
        ExpressionView::UnaryOperation(operand, operation) => {
            let value = eval(*operand, state, fuel);
            match value.result {
                Err(reason) => halt(reason, value.state),
                Ok(v) => answer(value.state, apply_unary(v, operation)),
            }
        },
        ExpressionView::BinaryOperation(lhs, rhs, operation) => {
            let left = eval(*lhs, state, fuel);
            match left.result {
                Err(reason) => halt(reason, left.state),
                Ok(a) => {
                    let right = eval(*rhs, left.state, fuel);
                    match right.result {
                        Err(reason) => halt(reason, right.state),
                        Ok(b) => answer(right.state, apply_binary(a, b, operation)),
                    }
                },
            }
        },
    }
}

/// What a call gives: the arguments are evaluated in their order, then the
/// body runs in a scope of its own that binds the parameters to them.
pub open spec fn invoke(
    function: ValueView,
    arguments: Seq<ExpressionView>,
    state: StateView,
    fuel: nat,
) -> Step<ValueView>
    decreases fuel, arguments, arguments.len() + 1,
{
    match function {
        ValueView::Function(parameters, body) => if arguments.len() != parameters.len() {
            fault(InterpreterError::WrongArgumentCount, state)
        } else {
            let values = eval_all(arguments, 0, state, fuel, Seq::empty());
            match values.result {
                Err(reason) => halt(reason, values.state),
                Ok(list) => if fuel == 0 {
                    halt(HaltView::OutOfBudget, values.state)
                } else {
                    let entered = StateView {
                        stack: values.state.stack.push(
                            frame_for(parameters, list, 0, Seq::empty()),
                        ),
                        ..values.state
                    };
                    returned(exec_all(body, 0, entered, (fuel - 1) as nat))
                },
            }
        },
        _ => fault(InterpreterError::ExpectedFunction, state),
    }
}

/// The values of the expressions from the `i`th on, in their order, after
/// `values`.
pub open spec fn eval_all(
    es: Seq<ExpressionView>,
    i: int,
    state: StateView,
    fuel: nat,
    values: Seq<ValueView>,
) -> Step<Seq<ValueView>>
    decreases fuel, es, es.len() - i,
{
    if 0 <= i < es.len() {
        let value = eval(es[i], state, fuel);
        match value.result {
            Err(reason) => halt(reason, value.state),
            Ok(v) => eval_all(es, i + 1, value.state, fuel, values.push(v)),
        }
    } else {
        ok(values, state)
    }
}

/// The entries of a map literal from the `i`th on, stored into `pairs`: of
/// each the key, then the value. A later entry takes the place of an earlier
/// one with the same key.
pub open spec fn eval_entries(
    entries: Seq<(ExpressionView, ExpressionView)>,
    i: int,
    state: StateView,
    fuel: nat,
    pairs: Seq<(HashableView, ValueView)>,
) -> Step<Seq<(HashableView, ValueView)>>
    decreases fuel, entries, entries.len() - i,
{
    if 0 <= i < entries.len() {
        let key = eval(entries[i].0, state, fuel);
        match key.result {
            Err(reason) => halt(reason, key.state),
            Ok(k) => {
                let value = eval(entries[i].1, key.state, fuel);
                match value.result {
                    Err(reason) => halt(reason, value.state),
                    Ok(v) => match hashable(k) {
                        None => fault(InterpreterError::MapKeyNotHashable, value.state),
                        Some(h) => eval_entries(
                            entries,
                            i + 1,
                            value.state,
                            fuel,
                            store(pairs, h, v),
                        ),
                    },
                }
            },
        }
    } else {
        ok(pairs, state)
    }
}

/// What a statement does.
pub open spec fn exec(s: StatementView, state: StateView, fuel: nat) -> Step<FlowView>
    decreases fuel, s, 0nat,
{
    match s {
        StatementView::Declaration { name, initializer } => if state.declares(name) {
            fault(InterpreterError::Redeclaration, state)
        } else {
            let value = eval(initializer, state, fuel);
            match value.result {
                Err(reason) => halt(reason, value.state),
                Ok(v) => ok(FlowView::Normal, value.state.declared(name, v)),
            }
        },
        StatementView::Assignment { lvalue, value } => {
            let computed = eval(value, state, fuel);
            match computed.result {
                Err(reason) => halt(reason, computed.state),
                Ok(v) => match lvalue {
                    LvalueView::Identifier(name) => if computed.state.home(name) >= 0 {
                        ok(FlowView::Normal, computed.state.assigned(name, v))
                    } else {
                        fault(InterpreterError::UnknownIdentifier, computed.state)
                    },
                    _ => fault(InterpreterError::UnsupportedOperation, computed.state),
                },
            }
        },
        StatementView::UnusedExpression(e) => {
            let value = eval(e, state, fuel);
            match value.result {
                Err(reason) => halt(reason, value.state),
                Ok(_) => ok(FlowView::Normal, value.state),
            }
        },
        StatementView::Return(e) => {
            let value = eval(e, state, fuel);
            match value.result {
                Err(reason) => halt(reason, value.state),
                Ok(v) => ok(FlowView::Return(v), value.state),
            }
        },
        StatementView::Break => ok(FlowView::Break, state),
        StatementView::Continue => ok(FlowView::Continue, state),
        StatementView::Loop { body } => run_loop(body, state, fuel),
        StatementView::For { loop_var, iterator, body } => fault(
            InterpreterError::UnsupportedOperation,
            state,
        ),
        StatementView::While { condition, body } => run_while(condition, body, state, fuel),
        StatementView::If { branches } => exec_branches(branches, 0, state, fuel),
        StatementView::Block { body } => scoped(exec_all(body, 0, state.pushed(), fuel)),
    }
}

/// What the statements from the `i`th on do, one after the other, up to the
/// first that does not end normally.
pub open spec fn exec_all(ss: Seq<StatementView>, i: int, state: StateView, fuel: nat) -> Step<
    FlowView,
>
    decreases fuel, ss, ss.len() - i,
{
    if 0 <= i < ss.len() {
        let step = exec(ss[i], state, fuel);
        match step.result {
            Ok(FlowView::Normal) => exec_all(ss, i + 1, step.state, fuel),
            _ => step,
        }
    } else {
        ok(FlowView::Normal, state)
    }
}

/// What the branches of an `if` from the `i`th on do: the body of the first
/// whose condition is true runs in a scope of its own.
pub open spec fn exec_branches(
    branches: Seq<(ExpressionView, Seq<StatementView>)>,
    i: int,
    state: StateView,
    fuel: nat,
) -> Step<FlowView>
    decreases fuel, branches, branches.len() - i,
{
    if 0 <= i < branches.len() {
        let condition = eval(branches[i].0, state, fuel);
        match condition.result {
            Err(reason) => halt(reason, condition.state),
            Ok(ValueView::Bool(true)) => scoped(
                exec_all(branches[i].1, 0, condition.state.pushed(), fuel),
            ),
            Ok(ValueView::Bool(false)) => exec_branches(branches, i + 1, condition.state, fuel),
            Ok(_) => fault(InterpreterError::ExpectedBool, condition.state),
        }
    } else {
        ok(FlowView::Normal, state)
    }
}

/// What a `loop` does: each iteration runs the body in a scope of its own.
/// `break` ends the loop, `continue` the iteration, and `return` passes on.
pub open spec fn run_loop(body: Seq<StatementView>, state: StateView, fuel: nat) -> Step<FlowView>
    decreases fuel, body, body.len() + 1,
{
    if fuel == 0 {
        halt(HaltView::OutOfBudget, state)
    } else {
        let step = exec_all(body, 0, state.pushed(), (fuel - 1) as nat);
        match step.result {
            Err(_) => step,
            Ok(FlowView::Break) => ok(FlowView::Normal, step.state.popped()),
            Ok(FlowView::Return(value)) => ok(FlowView::Return(value), step.state.popped()),
            Ok(_) => run_loop(body, step.state.popped(), (fuel - 1) as nat),
        }
    }
}

/// What a `while` does: a `loop` that evaluates the condition before each
/// iteration and ends when it is false.
pub open spec fn run_while(
    condition: ExpressionView,
    body: Seq<StatementView>,
    state: StateView,
    fuel: nat,
) -> Step<FlowView>
    decreases fuel, body, body.len() + 1,
{
    if fuel == 0 {
        halt(HaltView::OutOfBudget, state)
    } else {
        let test = eval(condition, state, (fuel - 1) as nat);
        match test.result {
            Err(reason) => halt(reason, test.state),
            Ok(ValueView::Bool(false)) => ok(FlowView::Normal, test.state),
            Ok(ValueView::Bool(true)) => {
                let step = exec_all(body, 0, test.state.pushed(), (fuel - 1) as nat);
                match step.result {
                    Err(_) => step,
                    Ok(FlowView::Break) => ok(FlowView::Normal, step.state.popped()),
                    Ok(FlowView::Return(value)) => ok(
                        FlowView::Return(value),
                        step.state.popped(),
                    ),
                    Ok(_) => run_while(condition, body, step.state.popped(), (fuel - 1) as nat),
                }
            },
            Ok(_) => fault(InterpreterError::ExpectedBool, test.state),
        }
    }
}

/// What a program does in a fresh scope: it has to end normally.
pub open spec fn run(program: Seq<StatementView>, state: StateView, fuel: nat) -> Step<()> {
    let step = exec_all(program, 0, state.pushed(), fuel);
    match step.result {
        Err(reason) => halt(reason, step.state),
        Ok(FlowView::Normal) => ok((), step.state),
        Ok(_) => fault(InterpreterError::UpwardControlFlowReachedTopLevel, step.state),
    }
}

} // verus!
