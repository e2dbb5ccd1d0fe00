//! What the operators of the language make of values.

use crate::ast::{BinaryOperation, UnaryOperation};
use crate::semantics::{
    apply_binary, apply_integers, apply_unary, index, quotient, remainder, wrap32,
};
use crate::state::{FloatRequest, Halt, HaltView, InterpreterError};
use crate::value::{clone_value, find_pair, Value, ValueView};
use vstd::arithmetic::div_mod::{lemma_div_nonincreasing, lemma_div_pos_is_pos, lemma_mod_bound};
use vstd::prelude::*;

verus! {

/// The view of what an operator gives.
pub open spec fn outcome_view(r: Result<Value, Halt>) -> Result<ValueView, HaltView> {
    match r {
        Ok(v) => Ok(v@),
        Err(h) => Err(h@),
    }
}

/// A quotient that rounds towards zero is no further from zero than the
/// dividend.
proof fn lemma_quotient_bound(x: int, d: int)
    requires
        d != 0,
    ensures
        x >= 0 ==> -x <= quotient(x, d) <= x,
        x < 0 ==> x <= quotient(x, d) <= -x,
{
    if x > 0 && d > 0 {
        lemma_div_pos_is_pos(x, d);
        lemma_div_nonincreasing(x, d);
    } else if x < 0 && d < 0 {
        lemma_div_pos_is_pos(x * -1, d * -1);
        lemma_div_nonincreasing(x * -1, d * -1);
    } else if x < 0 {
        lemma_div_pos_is_pos(x * -1, d);
        lemma_div_nonincreasing(x * -1, d);
    } else if x > 0 {
        lemma_div_pos_is_pos(x, d * -1);
        lemma_div_nonincreasing(x, d * -1);
    }
}

/// A remainder is closer to zero than the divisor.
proof fn lemma_remainder_bound(x: int, d: int)
    requires
        d != 0,
    ensures
        d > 0 ==> -d < remainder(x, d) < d,
        d < 0 ==> d < remainder(x, d) < -d,
{
    if x > 0 && d > 0 {
        lemma_mod_bound(x, d);
    } else if x < 0 && d < 0 {
        lemma_mod_bound(x * -1, d * -1);
    } else if x < 0 {
        lemma_mod_bound(x * -1, d);
    } else if x > 0 {
        lemma_mod_bound(x, d * -1);
    }
}

/// Divides with rounding towards zero and 32-bit wraparound.
fn divide(a: i32, b: i32) -> (r: i32)
    requires
        b != 0,
    ensures
        r == wrap32(quotient(a as int, b as int)),
{
    proof {
        lemma_quotient_bound(a as int, b as int);
    }
    if a == i32::MIN && b == -1 {
        assert(quotient(a as int, b as int) == 0x8000_0000) by {
            assert((a as int * -1) == 0x8000_0000);
            assert((b as int * -1) == 1);
            assert(0x8000_0000int / 1 == 0x8000_0000);
        }
        i32::MIN
    } else {
        proof {
            if b == -1 {
                assert(quotient(a as int, b as int) == -a) by {
                    if a > 0 {
                        assert((b as int * -1) == 1);
                        assert(a as int / 1 == a);
                    } else if a < 0 {
                        assert((b as int * -1) == 1);
                        assert((a as int * -1) / 1 == -a);
                    }
                }
            } else if a == i32::MIN {
                assert(-0x8000_0000 <= quotient(a as int, b as int) <= 0x8000_0000);
                if b > 0 {
                    lemma_div_pos_is_pos(a as int * -1, b as int);
                } else {
                    lemma_quotient_min(b as int);
                }
            }
        }
        match a.checked_div(b) {
            Some(q) => q,
            None => 0,
        }
    }
}

/// The least integer, divided by a negative number other than -1, stays
/// below the largest.
proof fn lemma_quotient_min(d: int)
    requires
        d < -1,
    ensures
        0 <= quotient(-0x8000_0000, d) < 0x8000_0000,
{
    let x = 0x8000_0000int;
    let e = d * -1;
    assert(quotient(-0x8000_0000, d) == x / e);
    lemma_div_pos_is_pos(x, e);
    vstd::arithmetic::div_mod::lemma_div_is_ordered_by_denominator(x, 2, e);
    assert(x / 2 == 0x4000_0000);
}

/// The remainder of the division that rounds towards zero.
fn modulo(a: i32, b: i32) -> (r: i32)
    requires
        b != 0,
    ensures
        r == wrap32(remainder(a as int, b as int)),
{
    proof {
        lemma_remainder_bound(a as int, b as int);
    }
    if a == i32::MIN && b == -1 {
        assert(remainder(a as int, b as int) == 0) by {
            assert((a as int * -1) == 0x8000_0000);
            assert((b as int * -1) == 1);
            assert(0x8000_0000int % 1 == 0);
        }
        0
    } else {
        match a.checked_rem(b) {
            Some(q) => q,
            None => 0,
        }
    }
}

/// Applies a binary operator to two integers.
pub fn integer_operation(a: i32, b: i32, operation: BinaryOperation) -> (r: Result<Value, Halt>)
    ensures
        outcome_view(r) == apply_integers(a as int, b as int, operation),
{
    match operation {
        BinaryOperation::Add => Ok(Value::Integer(a.wrapping_add(b))),
        BinaryOperation::Sub => Ok(Value::Integer(a.wrapping_sub(b))),
        BinaryOperation::Mul => Ok(Value::Integer(a.wrapping_mul(b))),
        BinaryOperation::Div => if b == 0 {
            Err(Halt::Error(InterpreterError::UnsupportedOperation))
        } else {
            Ok(Value::Integer(divide(a, b)))
        },
        BinaryOperation::Mod => if b == 0 {
            Err(Halt::Error(InterpreterError::UnsupportedOperation))
        } else {
            Ok(Value::Integer(modulo(a, b)))
        },
        BinaryOperation::Eq => Ok(Value::Bool(a == b)),
        BinaryOperation::NoEq => Ok(Value::Bool(a != b)),
        BinaryOperation::Lt => Ok(Value::Bool(a < b)),
        BinaryOperation::LtEq => Ok(Value::Bool(a <= b)),
        BinaryOperation::Gt => Ok(Value::Bool(a > b)),
        BinaryOperation::GtEq => Ok(Value::Bool(a >= b)),
        _ => Err(Halt::Error(InterpreterError::UnsupportedOperation)),
    }
}

/// Applies a unary operator. A floating-point operand gives a request for
/// the operation.
pub fn unary_operation(operand: Value, operation: UnaryOperation) -> (r: Result<Value, Halt>)
    ensures
        outcome_view(r) == apply_unary(operand@, operation),
{
    match (operand, operation) {
        (Value::Bool(b), UnaryOperation::Not) => Ok(Value::Bool(!b)),
        (Value::Integer(i), UnaryOperation::Neg) => Ok(Value::Integer(0i32.wrapping_sub(i))),
        (Value::Float(f), UnaryOperation::Neg) => Err(Halt::FloatNeeded(FloatRequest::Negate(f))),
        _ => Err(Halt::Error(InterpreterError::UnsupportedOperation)),
    }
}

/// Reads what stands in a collection under a key.
pub fn index_operation(collection: Value, key: Value) -> (r: Result<Value, Halt>)
    ensures
        outcome_view(r) == index(collection@, key@),
{
    match collection {
        Value::Array(items) => match key {
            Value::Integer(i) => {
                if 0 <= i && (i as usize) < items.len() {
                    Ok(clone_value(&items[i as usize]))
                } else {
                    Err(Halt::Error(InterpreterError::UnsupportedOperation))
                }
            },
            _ => Err(Halt::Error(InterpreterError::UnsupportedOperation)),
        },
        Value::Mapping(entries) => match key.try_as_hashable() {
            None => Err(Halt::Error(InterpreterError::MapKeyNotHashable)),
            Some(k) => match find_pair(&entries, &k) {
                Some(value) => Ok(clone_value(value)),
                None => Err(Halt::Error(InterpreterError::UnsupportedOperation)),
            },
        },
        _ => Err(Halt::Error(InterpreterError::UnsupportedOperation)),
    }
}

/// Applies a binary operator. Two floating-point operands give a request for
/// the operation.
pub fn binary_operation(lhs: Value, rhs: Value, operation: BinaryOperation) -> (r: Result<
    Value,
    Halt,
>)
    ensures
        outcome_view(r) == apply_binary(lhs@, rhs@, operation),
{
    if operation == BinaryOperation::Index {
        return index_operation(lhs, rhs);
    }
    match (lhs, rhs) {
        (Value::Integer(a), Value::Integer(b)) => integer_operation(a, b, operation),
        (Value::Float(a), Value::Float(b)) => match operation {
            BinaryOperation::Add
            | BinaryOperation::Sub
            | BinaryOperation::Mul
            | BinaryOperation::Div => Err(
                Halt::FloatNeeded(FloatRequest::Arithmetic(operation, a, b)),
            ),
            BinaryOperation::Lt
            | BinaryOperation::LtEq
            | BinaryOperation::Gt
            | BinaryOperation::GtEq => Err(
                Halt::FloatNeeded(FloatRequest::Compare(operation, a, b)),
            ),
            _ => Err(Halt::Error(InterpreterError::UnsupportedOperation)),
        },
        (Value::Bool(a), Value::Bool(b)) => match operation {
            BinaryOperation::And => Ok(Value::Bool(a && b)),
            BinaryOperation::Or => Ok(Value::Bool(a || b)),
            _ => Err(Halt::Error(InterpreterError::UnsupportedOperation)),
        },
        _ => Err(Halt::Error(InterpreterError::UnsupportedOperation)),
    }
}

} // verus!
