use mill::ast::{BinaryOperation, Expression, Float, Identifier, UnaryOperation};
use mill::expression::parse_expression;
use mill::interpret::{
    call, declare, evaluate_expression, interpret, interpret_all, interpret_statement, lookup,
    lookup_mut, resolve, settle_reply,
};
use mill::lexer::Lexer;
use mill::operators::{binary_operation, index_operation, integer_operation, unary_operation};
use mill::state::{
    ControlFlow, FloatOrder, FloatReply, FloatRequest, Halt, InterpreterError, Scope, State,
};
use mill::statement::parse;
use mill::value::{find_pair, store_pair, HashableValue, Value};

const BUDGET: u64 = 1000;

fn fresh() -> State {
    let mut state = State::new();
    state.push();
    state
}

fn run_in(state: &mut State, source: &str) -> Result<ControlFlow, Halt> {
    let ast = parse(source).unwrap();
    interpret_all(state, &ast.0, BUDGET)
}

fn after(source: &str) -> State {
    let mut state = fresh();
    assert_eq!(run_in(&mut state, source), Ok(ControlFlow::Normal));
    state
}

fn value_in(state: &mut State, source: &str) -> Result<Value, Halt> {
    let mut lexer = Lexer::new(source);
    let expression = parse_expression(&mut lexer).unwrap();
    evaluate_expression(state, &expression, BUDGET)
}

fn value_of_expression(source: &str) -> Result<Value, Halt> {
    value_in(&mut fresh(), source)
}

fn fails_with(source: &str) -> InterpreterError {
    match run_in(&mut fresh(), source) {
        Err(Halt::Error(e)) => e,
        other => panic!("{:?}", other),
    }
}

fn named(text: &str) -> Identifier {
    Identifier(text.to_string())
}

fn float(text: &str) -> Float {
    Float(text.to_string())
}

fn text(s: &str) -> Value {
    Value::String(s.to_string())
}

#[test]
fn literals_evaluate_to_themselves() {
    assert_eq!(value_of_expression("true"), Ok(Value::Bool(true)));
    assert_eq!(value_of_expression("false"), Ok(Value::Bool(false)));
    assert_eq!(value_of_expression("null"), Ok(Value::Null));
    assert_eq!(value_of_expression("7"), Ok(Value::Integer(7)));
    assert_eq!(value_of_expression("1.5"), Ok(Value::Float(float("1.5"))));
    assert_eq!(value_of_expression("\"s\""), Ok(text("s")));
    assert_eq!(
        value_of_expression("[1, [true], \"x\"]"),
        Ok(Value::Array(vec![
            Value::Integer(1),
            Value::Array(vec![Value::Bool(true)]),
            text("x"),
        ]))
    );
}

#[test]
fn precedence_decides_the_value() {
    assert_eq!(value_of_expression("1 + 2 * 3"), Ok(Value::Integer(7)));
    assert_eq!(value_of_expression("(1 + 2) * 3"), Ok(Value::Integer(9)));
    assert_eq!(value_of_expression("10 - 4 - 3"), Ok(Value::Integer(3)));
    assert_eq!(value_of_expression("2 * 3 % 4"), Ok(Value::Integer(2)));
}

#[test]
fn integer_arithmetic_wraps_around() {
    assert_eq!(value_of_expression("2147483647 + 1"), Ok(Value::Integer(-2147483648)));
    assert_eq!(value_of_expression("-2147483648 - 1"), Ok(Value::Integer(2147483647)));
    assert_eq!(value_of_expression("65536 * 65536"), Ok(Value::Integer(0)));
    assert_eq!(value_of_expression("46341 * 46341"), Ok(Value::Integer(-2147479015)));
    assert_eq!(value_of_expression("-(-2147483648)"), Ok(Value::Integer(-2147483648)));
    assert_eq!(value_of_expression("-(5)"), Ok(Value::Integer(-5)));
    assert_eq!(value_of_expression("-2147483648 / -1"), Ok(Value::Integer(-2147483648)));
    assert_eq!(value_of_expression("-2147483648 % -1"), Ok(Value::Integer(0)));
}

#[test]
fn division_rounds_towards_zero() {
    assert_eq!(value_of_expression("7 / 2"), Ok(Value::Integer(3)));
    assert_eq!(value_of_expression("-7 / 2"), Ok(Value::Integer(-3)));
    assert_eq!(value_of_expression("7 / -2"), Ok(Value::Integer(-3)));
    assert_eq!(value_of_expression("-7 / -2"), Ok(Value::Integer(3)));
    assert_eq!(value_of_expression("0 / 5"), Ok(Value::Integer(0)));
    assert_eq!(value_of_expression("7 % 2"), Ok(Value::Integer(1)));
    assert_eq!(value_of_expression("-7 % 2"), Ok(Value::Integer(-1)));
    assert_eq!(value_of_expression("7 % -2"), Ok(Value::Integer(1)));
    assert_eq!(value_of_expression("-7 % -2"), Ok(Value::Integer(-1)));
    assert_eq!(value_of_expression("-2147483648 / 2"), Ok(Value::Integer(-1073741824)));
    assert_eq!(value_of_expression("-2147483648 / -2"), Ok(Value::Integer(1073741824)));
}

#[test]
fn division_by_zero_is_unsupported() {
    assert_eq!(
        value_of_expression("1 / 0"),
        Err(Halt::Error(InterpreterError::UnsupportedOperation))
    );
    assert_eq!(
        value_of_expression("1 % 0"),
        Err(Halt::Error(InterpreterError::UnsupportedOperation))
    );
    assert_eq!(
        integer_operation(0, 0, BinaryOperation::Div),
        Err(Halt::Error(InterpreterError::UnsupportedOperation))
    );
}

#[test]
fn integers_compare() {
    assert_eq!(value_of_expression("1 == 1"), Ok(Value::Bool(true)));
    assert_eq!(value_of_expression("1 != 1"), Ok(Value::Bool(false)));
    assert_eq!(value_of_expression("1 < 2"), Ok(Value::Bool(true)));
    assert_eq!(value_of_expression("2 <= 2"), Ok(Value::Bool(true)));
    assert_eq!(value_of_expression("1 > 2"), Ok(Value::Bool(false)));
    assert_eq!(value_of_expression("1 >= 2"), Ok(Value::Bool(false)));
    assert_eq!(value_of_expression("-1 < 1"), Ok(Value::Bool(true)));
}

#[test]
fn logic_takes_two_booleans() {
    assert_eq!(value_of_expression("true && false"), Ok(Value::Bool(false)));
    assert_eq!(value_of_expression("true || false"), Ok(Value::Bool(true)));
    assert_eq!(value_of_expression("!true"), Ok(Value::Bool(false)));
    assert_eq!(value_of_expression("!false || false"), Ok(Value::Bool(true)));
    assert_eq!(
        value_of_expression("true && 1"),
        Err(Halt::Error(InterpreterError::UnsupportedOperation))
    );
    assert_eq!(
        value_of_expression("false && missing"),
        Err(Halt::Error(InterpreterError::UnknownIdentifier))
    );
}

#[test]
fn operands_of_the_wrong_type_are_unsupported() {
    let unsupported = Err(Halt::Error(InterpreterError::UnsupportedOperation));
    assert_eq!(value_of_expression("1 + true"), unsupported);
    assert_eq!(value_of_expression("\"a\" + \"b\""), unsupported);
    assert_eq!(value_of_expression("true == true"), unsupported);
    assert_eq!(value_of_expression("\"a\" == \"a\""), unsupported);
    assert_eq!(value_of_expression("null != null"), unsupported);
    assert_eq!(value_of_expression("1 && 2"), unsupported);
    assert_eq!(value_of_expression("true < false"), unsupported);
    assert_eq!(value_of_expression("1 + 1.5"), unsupported);
    assert_eq!(value_of_expression("1.5 % 1.5"), unsupported);
    assert_eq!(value_of_expression("1.5 == 1.5"), unsupported);
    assert_eq!(value_of_expression("!1"), unsupported);
    assert_eq!(value_of_expression("-true"), unsupported);
    assert_eq!(value_of_expression("-\"s\""), unsupported);
    assert_eq!(value_of_expression("a.b"), unsupported);
    assert_eq!(
        unary_operation(Value::Null, UnaryOperation::Not),
        Err(Halt::Error(InterpreterError::UnsupportedOperation))
    );
    assert_eq!(
        binary_operation(Value::Null, Value::Null, BinaryOperation::Add),
        Err(Halt::Error(InterpreterError::UnsupportedOperation))
    );
}

#[test]
fn inner_declarations_shadow_and_leave() {
    let mut state = after("let x = 1; { let x = 2; } ");
    assert_eq!(state.stack.len(), 1);
    assert_eq!(value_in(&mut state, "x"), Ok(Value::Integer(1)));
    let mut state = after("let x = 1; let y = 0; { let x = 2; y = x; x = 3; }");
    assert_eq!(value_in(&mut state, "x"), Ok(Value::Integer(1)));
    assert_eq!(value_in(&mut state, "y"), Ok(Value::Integer(2)));
}

#[test]
fn a_name_is_declared_once_in_a_scope() {
    assert_eq!(fails_with("let x=1; let x=2;"), InterpreterError::Redeclaration);
    assert_eq!(fails_with("let x; { let y; let y; }"), InterpreterError::Redeclaration);
    assert_eq!(after("let x; { let x; { let x; } }").stack.len(), 1);
    let mut state = fresh();
    assert_eq!(
        run_in(&mut state, "let x = 1; let x = missing;"),
        Err(Halt::Error(InterpreterError::Redeclaration))
    );
    assert_eq!(value_in(&mut state, "x"), Ok(Value::Integer(1)));
}

#[test]
fn a_declaration_without_value_is_null() {
    let mut state = after("let x;");
    assert_eq!(value_in(&mut state, "x"), Ok(Value::Null));
}

#[test]
fn assignment_reaches_the_scope_that_binds() {
    let mut state = after("let x = 1; { { x = x + 1; } }");
    assert_eq!(value_in(&mut state, "x"), Ok(Value::Integer(2)));
    assert_eq!(fails_with("x = 1;"), InterpreterError::UnknownIdentifier);
    assert_eq!(fails_with("{ let x; } x = 1;"), InterpreterError::UnknownIdentifier);
    assert_eq!(fails_with("x;"), InterpreterError::UnknownIdentifier);
}

#[test]
fn assignment_to_a_part_is_unsupported() {
    assert_eq!(fails_with("let a = [1]; a[0] = 2;"), InterpreterError::UnsupportedOperation);
    assert_eq!(fails_with("let a = {}; a.b = 2;"), InterpreterError::UnsupportedOperation);
}

#[test]
fn a_loop_ends_with_break_and_keeps_the_depth() {
    let mut state = fresh();
    state.push();
    state.push();
    assert_eq!(run_in(&mut state, "loop { break; }"), Ok(ControlFlow::Normal));
    assert_eq!(state.stack.len(), 3);
    assert_eq!(
        run_in(&mut state, "loop { let a = 1; loop { let b; { break; } } if true { break; } }"),
        Ok(ControlFlow::Normal)
    );
    assert_eq!(state.stack.len(), 3);
    assert_eq!(run_in(&mut state, "loop { { return 4; } }"), Ok(ControlFlow::Return(Value::Integer(4))));
    assert_eq!(state.stack.len(), 3);
    assert_eq!(run_in(&mut state, "while true { if true { break; } }"), Ok(ControlFlow::Normal));
    assert_eq!(state.stack.len(), 3);
}

#[test]
fn continue_ends_one_iteration() {
    let mut state = after(
        "let i = 0; let odd = 0; \
         loop { i = i + 1; if i > 5 { break; } if i % 2 == 0 { continue; } odd = odd + i; }",
    );
    assert_eq!(value_in(&mut state, "odd"), Ok(Value::Integer(9)));
    assert_eq!(value_in(&mut state, "i"), Ok(Value::Integer(6)));
}

#[test]
fn every_iteration_has_a_scope_of_its_own() {
    let mut state = after("let n = 0; loop { let once = n; n = n + 1; if n == 3 { break; } }");
    assert_eq!(value_in(&mut state, "n"), Ok(Value::Integer(3)));
    assert_eq!(value_in(&mut state, "once"), Err(Halt::Error(InterpreterError::UnknownIdentifier)));
}

#[test]
fn while_ends_when_the_condition_is_false() {
    let mut state = after("let i = 0; let sum = 0; while i < 4 { i = i + 1; sum = sum + i; }");
    assert_eq!(value_in(&mut state, "sum"), Ok(Value::Integer(10)));
    assert_eq!(after("while false { missing; }").stack.len(), 1);
    assert_eq!(fails_with("while 1 { }"), InterpreterError::ExpectedBool);
    assert_eq!(fails_with("while null { }"), InterpreterError::ExpectedBool);
}

#[test]
fn the_first_true_branch_runs() {
    let mut state = after(
        "let r = 0; if false { r = 1; } else if true { r = 2; } else if true { r = 3; } else { r = 4; }",
    );
    assert_eq!(value_in(&mut state, "r"), Ok(Value::Integer(2)));
    let mut state = after("let r = 0; if 1 > 2 { r = 1; } else { r = 4; }");
    assert_eq!(value_in(&mut state, "r"), Ok(Value::Integer(4)));
    let mut state = after("let r = 0; if false { r = 1; }");
    assert_eq!(value_in(&mut state, "r"), Ok(Value::Integer(0)));
    let mut state = after("let r = 0; if true { r = 1; } else if missing { }");
    assert_eq!(value_in(&mut state, "r"), Ok(Value::Integer(1)));
}

#[test]
fn a_condition_has_to_be_a_boolean() {
    assert_eq!(fails_with("if 1 { }"), InterpreterError::ExpectedBool);
    assert_eq!(fails_with("if false { } else if \"x\" { }"), InterpreterError::ExpectedBool);
}

#[test]
fn a_call_binds_parameters_and_returns() {
    let mut state = after("let f = fn(a,b) { return a + b; };");
    assert_eq!(value_in(&mut state, "f(2,3)"), Ok(Value::Integer(5)));
    assert_eq!(state.stack.len(), 1);
    assert_eq!(value_in(&mut state, "f(f(1, 2), f(3, 4)) * 2"), Ok(Value::Integer(20)));
    assert_eq!(value_in(&mut state, "fn() { }()"), Ok(Value::Null));
    assert_eq!(value_in(&mut state, "fn(x) { x; }(1)"), Ok(Value::Null));
    assert_eq!(value_in(&mut state, "fn(x) { return; }(1)"), Ok(Value::Null));
    assert_eq!(
        value_in(&mut state, "fn(x) { return x; return 2; }(1)"),
        Ok(Value::Integer(1))
    );
    assert_eq!(
        value_in(&mut state, "fn(x) { loop { if x > 2 { return x; } x = x + 1; } }(0)"),
        Ok(Value::Integer(3))
    );
    assert_eq!(state.stack.len(), 1);
}

#[test]
fn a_call_needs_as_many_arguments_as_parameters() {
    let mut state = after("let f = fn(a,b) { return a + b; };");
    assert_eq!(value_in(&mut state, "f(2)"), Err(Halt::Error(InterpreterError::WrongArgumentCount)));
    assert_eq!(
        value_in(&mut state, "f(1, 2, 3)"),
        Err(Halt::Error(InterpreterError::WrongArgumentCount))
    );
    assert_eq!(
        value_in(&mut state, "f(missing)"),
        Err(Halt::Error(InterpreterError::WrongArgumentCount))
    );
}

#[test]
fn only_functions_are_called() {
    assert_eq!(value_of_expression("1()"), Err(Halt::Error(InterpreterError::ExpectedFunction)));
    assert_eq!(
        value_of_expression("\"f\"(1)"),
        Err(Halt::Error(InterpreterError::ExpectedFunction))
    );
    let mut state = fresh();
    assert_eq!(
        call(&mut state, Value::Null, &vec![], BUDGET),
        Err(Halt::Error(InterpreterError::ExpectedFunction))
    );
}

#[test]
fn arguments_are_evaluated_where_the_call_stands() {
    let mut state = after("let a = 10; let f = fn(a, b) { return b; };");
    assert_eq!(value_in(&mut state, "f(1, a)"), Ok(Value::Integer(10)));
    let mut state = after("let f = fn(a, a) { return a; };");
    assert_eq!(value_in(&mut state, "f(1, 2)"), Ok(Value::Integer(2)));
}

#[test]
fn a_function_sees_the_scopes_of_its_call() {
    let mut state = after("let f = fn() { return y; };");
    assert_eq!(value_in(&mut state, "f()"), Err(Halt::Error(InterpreterError::UnknownIdentifier)));
    assert_eq!(run_in(&mut state, "let y = 5;"), Ok(ControlFlow::Normal));
    assert_eq!(value_in(&mut state, "f()"), Ok(Value::Integer(5)));
    let mut state = after("let n = 0; let bump = fn() { n = n + 1; }; bump(); bump();");
    assert_eq!(value_in(&mut state, "n"), Ok(Value::Integer(2)));
}

#[test]
fn functions_recurse_within_the_budget() {
    let mut state =
        after("let fact = fn(n) { if n <= 1 { return 1; } return n * fact(n - 1); };");
    assert_eq!(value_in(&mut state, "fact(10)"), Ok(Value::Integer(3628800)));
    assert_eq!(state.stack.len(), 1);
    let mut state = after("let down = fn(n) { return down(n); };");
    assert_eq!(value_in(&mut state, "down(1)"), Err(Halt::OutOfBudget));
}

#[test]
fn loop_control_does_not_leave_a_function() {
    assert_eq!(
        value_of_expression("fn() { break; }()"),
        Err(Halt::Error(InterpreterError::UpwardControlFlowReachedTopLevel))
    );
    assert_eq!(
        fails_with("loop { fn() { continue; }(); break; }"),
        InterpreterError::UpwardControlFlowReachedTopLevel
    );
}

#[test]
fn control_flow_does_not_leave_a_program() {
    let upward = Err(Halt::Error(InterpreterError::UpwardControlFlowReachedTopLevel));
    assert_eq!(interpret(&parse("break;").unwrap(), BUDGET, vec![]), upward);
    assert_eq!(interpret(&parse("continue;").unwrap(), BUDGET, vec![]), upward);
    assert_eq!(interpret(&parse("let x = 1; return x;").unwrap(), BUDGET, vec![]), upward);
    assert_eq!(interpret(&parse("if true { { break; } }").unwrap(), BUDGET, vec![]), upward);
    assert_eq!(interpret(&parse("").unwrap(), BUDGET, vec![]), Ok(()));
    assert_eq!(
        interpret(&parse("let x = 1; loop { x = x + 1; if x > 3 { break; } }").unwrap(), 4, vec![]),
        Ok(())
    );
    assert_eq!(
        interpret(&parse("let x = y;").unwrap(), BUDGET, vec![]),
        Err(Halt::Error(InterpreterError::UnknownIdentifier))
    );
}

#[test]
fn a_budget_bounds_the_work() {
    assert_eq!(interpret(&parse("loop { }").unwrap(), BUDGET, vec![]), Err(Halt::OutOfBudget));
    assert_eq!(interpret(&parse("while true { }").unwrap(), 3, vec![]), Err(Halt::OutOfBudget));
    assert_eq!(interpret(&parse("loop { break; }").unwrap(), 0, vec![]), Err(Halt::OutOfBudget));
    assert_eq!(interpret(&parse("loop { break; }").unwrap(), 1, vec![]), Ok(()));
    assert_eq!(interpret(&parse("fn() { }();").unwrap(), 0, vec![]), Err(Halt::OutOfBudget));
    assert_eq!(interpret(&parse("fn() { }();").unwrap(), 1, vec![]), Ok(()));
    assert_eq!(interpret(&parse("while false { }").unwrap(), 0, vec![]), Err(Halt::OutOfBudget));
    assert_eq!(interpret(&parse("let x = 1 + 2; { x; }").unwrap(), 0, vec![]), Ok(()));
}

#[test]
fn a_later_entry_takes_the_place_of_an_earlier_one() {
    assert_eq!(value_of_expression("{1: \"a\", 1: \"b\"}[1]"), Ok(text("b")));
    assert_eq!(
        value_of_expression("{1: \"a\", 2: \"c\", 1: \"b\"}"),
        Ok(Value::Mapping(vec![
            (HashableValue::Integer(1), text("b")),
            (HashableValue::Integer(2), text("c")),
        ]))
    );
}

#[test]
fn keys_are_booleans_null_integers_and_strings() {
    let mut state = after("let m = {true: 1, null: 2, 3: 3, \"k\": 4, \"3\": 5, false: 6};");
    assert_eq!(value_in(&mut state, "m[true]"), Ok(Value::Integer(1)));
    assert_eq!(value_in(&mut state, "m[null]"), Ok(Value::Integer(2)));
    assert_eq!(value_in(&mut state, "m[1 + 2]"), Ok(Value::Integer(3)));
    assert_eq!(value_in(&mut state, "m[\"k\"]"), Ok(Value::Integer(4)));
    assert_eq!(value_in(&mut state, "m[\"3\"]"), Ok(Value::Integer(5)));
    assert_eq!(value_in(&mut state, "m[false]"), Ok(Value::Integer(6)));
    assert_eq!(
        value_in(&mut state, "m[4]"),
        Err(Halt::Error(InterpreterError::UnsupportedOperation))
    );
    assert_eq!(Value::Integer(3).try_as_hashable(), Some(HashableValue::Integer(3)));
    assert_eq!(Value::Null.try_as_hashable(), Some(HashableValue::Null));
    assert_eq!(Value::Bool(true).try_as_hashable(), Some(HashableValue::Bool(true)));
    assert_eq!(text("s").try_as_hashable(), Some(HashableValue::String("s".to_string())));
    assert_eq!(Value::Float(float("1.5")).try_as_hashable(), None);
    assert_eq!(Value::Array(vec![]).try_as_hashable(), None);
    assert_eq!(Value::Mapping(vec![]).try_as_hashable(), None);
    assert_eq!(Value::Function(vec![], vec![]).try_as_hashable(), None);
}

#[test]
fn other_values_are_no_keys() {
    let not_hashable = Err(Halt::Error(InterpreterError::MapKeyNotHashable));
    assert_eq!(value_of_expression("{[1]: 2}"), not_hashable);
    assert_eq!(value_of_expression("{1.5: 2}"), not_hashable);
    assert_eq!(value_of_expression("{{}: 2}"), not_hashable);
    assert_eq!(value_of_expression("{fn() {}: 2}"), not_hashable);
    assert_eq!(value_of_expression("{1: 2}[[1]]"), not_hashable);
    assert_eq!(
        value_of_expression("{[1]: missing}"),
        Err(Halt::Error(InterpreterError::UnknownIdentifier))
    );
}

#[test]
fn arrays_are_indexed_by_position() {
    assert_eq!(value_of_expression("[10, 20, 30][0]"), Ok(Value::Integer(10)));
    assert_eq!(value_of_expression("[10, 20, 30][2]"), Ok(Value::Integer(30)));
    assert_eq!(value_of_expression("[[1, 2], [3]][0][1]"), Ok(Value::Integer(2)));
    let unsupported = Err(Halt::Error(InterpreterError::UnsupportedOperation));
    assert_eq!(value_of_expression("[10, 20, 30][3]"), unsupported);
    assert_eq!(value_of_expression("[10, 20, 30][-1]"), unsupported);
    assert_eq!(value_of_expression("[][0]"), unsupported);
    assert_eq!(value_of_expression("[1][true]"), unsupported);
    assert_eq!(value_of_expression("1[0]"), unsupported);
    assert_eq!(value_of_expression("\"abc\"[0]"), unsupported);
    assert_eq!(index_operation(Value::Null, Value::Integer(0)), unsupported);
}

#[test]
fn statements_that_have_no_meaning_are_unsupported() {
    assert_eq!(fails_with("for x in [1] { }"), InterpreterError::UnsupportedOperation);
    assert_eq!(fails_with("let m = {\"k\": 1}; m.k;"), InterpreterError::UnsupportedOperation);
}

#[test]
fn a_floating_point_operation_is_asked_for() {
    assert_eq!(
        value_of_expression("1.5 + 2.5"),
        Err(Halt::FloatNeeded(FloatRequest::Arithmetic(
            BinaryOperation::Add,
            float("1.5"),
            float("2.5"),
        )))
    );
    assert_eq!(
        value_of_expression("1.5 / 2.5"),
        Err(Halt::FloatNeeded(FloatRequest::Arithmetic(
            BinaryOperation::Div,
            float("1.5"),
            float("2.5"),
        )))
    );
    assert_eq!(
        value_of_expression("1.5 <= 2.5"),
        Err(Halt::FloatNeeded(FloatRequest::Compare(
            BinaryOperation::LtEq,
            float("1.5"),
            float("2.5"),
        )))
    );
    assert_eq!(
        value_of_expression("-(1.5)"),
        Err(Halt::FloatNeeded(FloatRequest::Negate(float("1.5"))))
    );
    assert_eq!(
        binary_operation(
            Value::Float(float("1")),
            Value::Float(float("2")),
            BinaryOperation::Mul
        ),
        Err(Halt::FloatNeeded(FloatRequest::Arithmetic(
            BinaryOperation::Mul,
            float("1"),
            float("2"),
        )))
    );
}

#[test]
fn answers_are_used_in_their_order() {
    let mut state = State::with_replies(vec![
        FloatReply::Number(float("4")),
        FloatReply::Order(FloatOrder::Less),
        FloatReply::Number(float("-4")),
    ]);
    state.push();
    assert_eq!(value_in(&mut state, "1.5 + 2.5"), Ok(Value::Float(float("4"))));
    assert_eq!(state.used, 1);
    assert_eq!(value_in(&mut state, "1.5 < 2.5"), Ok(Value::Bool(true)));
    assert_eq!(state.used, 2);
    assert_eq!(value_in(&mut state, "-(4.0)"), Ok(Value::Float(float("-4"))));
    assert_eq!(state.used, 3);
    assert_eq!(
        value_in(&mut state, "-(4.0)"),
        Err(Halt::FloatNeeded(FloatRequest::Negate(float("4.0"))))
    );
    assert_eq!(state.used, 3);
}

#[test]
fn an_answer_of_the_wrong_kind_is_not_used() {
    let mut state = State::with_replies(vec![FloatReply::Order(FloatOrder::Less)]);
    state.push();
    assert_eq!(
        value_in(&mut state, "1.5 + 2.5"),
        Err(Halt::FloatNeeded(FloatRequest::Arithmetic(
            BinaryOperation::Add,
            float("1.5"),
            float("2.5"),
        )))
    );
    assert_eq!(state.used, 0);
    let mut state = State::with_replies(vec![FloatReply::Number(float("1"))]);
    state.push();
    assert!(matches!(value_in(&mut state, "1.5 > 2.5"), Err(Halt::FloatNeeded(_))));
    assert_eq!(state.used, 0);
}

#[test]
fn an_order_decides_every_comparison() {
    let cases = [
        (BinaryOperation::Lt, [true, false, false, false]),
        (BinaryOperation::LtEq, [true, true, false, false]),
        (BinaryOperation::Gt, [false, false, true, false]),
        (BinaryOperation::GtEq, [false, true, true, false]),
    ];
    let orders =
        [FloatOrder::Less, FloatOrder::Equal, FloatOrder::Greater, FloatOrder::Unordered];
    for (operation, expected) in cases {
        for (order, holds) in orders.iter().zip(expected) {
            let request = FloatRequest::Compare(operation, float("1"), float("2"));
            assert_eq!(
                settle_reply(&request, &FloatReply::Order(*order)),
                Some(Value::Bool(holds))
            );
        }
    }
    assert_eq!(
        settle_reply(
            &FloatRequest::Arithmetic(BinaryOperation::Add, float("1"), float("2")),
            &FloatReply::Number(float("3"))
        ),
        Some(Value::Float(float("3")))
    );
    assert_eq!(
        settle_reply(&FloatRequest::Negate(float("1")), &FloatReply::Order(FloatOrder::Less)),
        None
    );
}

fn answer_with_machine_arithmetic(request: &FloatRequest) -> FloatReply {
    let number = |f: &Float| f.0.parse::<f64>().unwrap();
    match request {
        FloatRequest::Negate(a) => FloatReply::Number(Float(format!("{:?}", -number(a)))),
        FloatRequest::Arithmetic(operation, a, b) => {
            let (a, b) = (number(a), number(b));
            let result = match operation {
                BinaryOperation::Add => a + b,
                BinaryOperation::Sub => a - b,
                BinaryOperation::Mul => a * b,
                _ => a / b,
            };
            FloatReply::Number(Float(format!("{:?}", result)))
        },
        FloatRequest::Compare(_, a, b) => FloatReply::Order(
            match number(a).partial_cmp(&number(b)) {
                Some(std::cmp::Ordering::Less) => FloatOrder::Less,
                Some(std::cmp::Ordering::Equal) => FloatOrder::Equal,
                Some(std::cmp::Ordering::Greater) => FloatOrder::Greater,
                None => FloatOrder::Unordered,
            },
        ),
    }
}

#[test]
fn a_program_with_floats_runs_by_replay() {
    let ast = parse(
        "let x = 0.5; let n = 0; while x < 3.0 { x = x * 2.0; n = n + 1; } \
         let y = -(x - 0.25); if y >= 0.0 { missing; }",
    )
    .unwrap();
    let mut replies: Vec<FloatReply> = Vec::new();
    let mut rounds = 0;
    let mut state;
    loop {
        state = State::with_replies(replies.clone());
        state.push();
        match interpret_all(&mut state, &ast.0, BUDGET) {
            Err(Halt::FloatNeeded(request)) => {
                replies.push(answer_with_machine_arithmetic(&request));
                rounds += 1;
            },
            other => {
                assert_eq!(other, Ok(ControlFlow::Normal));
                break;
            },
        }
    }
    assert_eq!(rounds, 10);
    assert_eq!(state.used, 10);
    assert_eq!(value_in(&mut state, "n"), Ok(Value::Integer(3)));
    assert_eq!(value_in(&mut state, "x"), Ok(Value::Float(float("4.0"))));
    assert_eq!(value_in(&mut state, "y"), Ok(Value::Float(float("-3.75"))));
    assert_eq!(interpret(&ast, BUDGET, replies), Ok(()));
}

#[test]
fn resolve_passes_other_outcomes_on() {
    let mut state = State::with_replies(vec![FloatReply::Number(float("1"))]);
    assert_eq!(resolve(&mut state, Ok(Value::Integer(1))), Ok(Value::Integer(1)));
    assert_eq!(resolve(&mut state, Err(Halt::OutOfBudget)), Err(Halt::OutOfBudget));
    assert_eq!(state.used, 0);
    assert_eq!(
        resolve(&mut state, Err(Halt::FloatNeeded(FloatRequest::Negate(float("-1"))))),
        Ok(Value::Float(float("1")))
    );
    assert_eq!(state.used, 1);
}

#[test]
fn names_are_found_from_the_innermost_scope_outwards() {
    let mut state = fresh();
    declare(&mut state, named("a"), Value::Integer(1));
    declare(&mut state, named("b"), Value::Integer(2));
    state.push();
    declare(&mut state, named("a"), Value::Integer(3));
    assert_eq!(lookup(&state, &named("a")), Ok(&Value::Integer(3)));
    assert_eq!(lookup(&state, &named("b")), Ok(&Value::Integer(2)));
    assert_eq!(lookup(&state, &named("c")), Err(InterpreterError::UnknownIdentifier));
    *lookup_mut(&mut state, &named("a")).unwrap() = Value::Integer(4);
    *lookup_mut(&mut state, &named("b")).unwrap() = Value::Integer(5);
    assert_eq!(
        lookup_mut(&mut state, &named("c")),
        Err(InterpreterError::UnknownIdentifier)
    );
    assert_eq!(lookup(&state, &named("a")), Ok(&Value::Integer(4)));
    state.pop();
    assert_eq!(lookup(&state, &named("a")), Ok(&Value::Integer(1)));
    assert_eq!(lookup(&state, &named("b")), Ok(&Value::Integer(5)));
    assert_eq!(state.stack.len(), 1);
    assert_eq!(state.stack[0].variables.len(), 2);
}

#[test]
fn a_scope_holds_each_name_once() {
    let mut scope = Scope::new();
    scope.insert(named("a"), Value::Integer(1));
    scope.insert(named("b"), Value::Integer(2));
    scope.insert(named("a"), Value::Integer(3));
    assert_eq!(scope.variables.len(), 2);
    assert_eq!(scope.position(&named("a")), 0);
    assert_eq!(scope.position(&named("b")), 1);
    assert_eq!(scope.position(&named("c")), 2);
    assert_eq!(scope.variables[0].1, Value::Integer(3));
    let mut state = fresh();
    state.current_scope().insert(named("x"), Value::Null);
    assert_eq!(lookup(&state, &named("x")), Ok(&Value::Null));
}

#[test]
fn a_map_holds_each_key_once() {
    let mut entries = Vec::new();
    store_pair(&mut entries, HashableValue::Integer(1), Value::Integer(10));
    store_pair(&mut entries, HashableValue::String("1".to_string()), Value::Integer(20));
    store_pair(&mut entries, HashableValue::Integer(1), Value::Integer(30));
    assert_eq!(entries.len(), 2);
    assert_eq!(find_pair(&entries, &HashableValue::Integer(1)), Some(&Value::Integer(30)));
    assert_eq!(
        find_pair(&entries, &HashableValue::String("1".to_string())),
        Some(&Value::Integer(20))
    );
    assert_eq!(find_pair(&entries, &HashableValue::Null), None);
    assert!(HashableValue::Null.same(&HashableValue::Null));
    assert!(!HashableValue::Bool(true).same(&HashableValue::Bool(false)));
    assert!(!HashableValue::Integer(1).same(&HashableValue::String("1".to_string())));
}

#[test]
fn a_function_value_keeps_its_body() {
    let mut state = after("let f = fn(a) { return a; };");
    let f = value_in(&mut state, "f").unwrap();
    match &f {
        Value::Function(parameters, body) => {
            assert_eq!(parameters, &vec![named("a")]);
            assert_eq!(body.len(), 1);
        },
        other => panic!("{:?}", other),
    }
    assert_eq!(f.clone(), f);
    assert_eq!(value_in(&mut state, "f(1) + f(2)"), Ok(Value::Integer(3)));
    let statement = parse("return f(7);").unwrap();
    assert_eq!(
        interpret_statement(&mut state, &statement.0[0], BUDGET),
        Ok(ControlFlow::Return(Value::Integer(7)))
    );
    let _ = Expression::Null;
}
