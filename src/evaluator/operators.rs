//! Comparison of a decoded value with a rule's literal.

use vstd::prelude::*;

use crate::parser::ast::{Operator, Value};

verus! {

/// Type-strict equality: same variant and same payload.
pub open spec fn values_equal(left: Value, right: Value) -> bool {
    match (left, right) {
        (Value::Uint(a), Value::Uint(b)) => a == b,
        (Value::Int(a), Value::Int(b)) => a == b,
        (Value::Bytes(a), Value::Bytes(b)) => a@ == b@,
        (Value::String(a), Value::String(b)) => a@ == b@,
        _ => false,
    }
}

/// The 64-bit pattern of an integer value (two's complement for `Int`).
pub open spec fn bit_pattern(v: Value) -> Option<u64> {
    match v {
        Value::Uint(a) => Some(a),
        Value::Int(a) => Some(a as u64),
        _ => None,
    }
}

/// Both values are integers and their bit patterns share a set bit.
pub open spec fn bits_overlap(left: Value, right: Value) -> bool {
    match (bit_pattern(left), bit_pattern(right)) {
        (Some(a), Some(b)) => a & b != 0,
        _ => false,
    }
}

/// Whether `op` holds between `left` and `right`.
pub open spec fn operator_holds(op: Operator, left: Value, right: Value) -> bool {
    match op {
        Operator::Equal => values_equal(left, right),
        Operator::NotEqual => !values_equal(left, right),
        Operator::BitwiseAnd => bits_overlap(left, right),
    }
}

fn bytes_equal(a: &Vec<u8>, b: &Vec<u8>) -> (r: bool)
    ensures
        r == (a@ == b@),
{
    if a.len() != b.len() {
        return false;
    }
    let mut i: usize = 0;
    while i < a.len()
        invariant
            a.len() == b.len(),
            0 <= i <= a.len(),
            forall|j: int| 0 <= j < i ==> a@[j] == b@[j],
        decreases a.len() - i,
    {
        if a[i] != b[i] {
            return false;
        }
        i = i + 1;
    }
    assert(a@ =~= b@);
    true
}

/// Type-strict equality of two values.
pub fn apply_equal(left: &Value, right: &Value) -> (r: bool)
    ensures
        r == values_equal(*left, *right),
{
    match (left, right) {
        (Value::Uint(a), Value::Uint(b)) => *a == *b,
        (Value::Int(a), Value::Int(b)) => *a == *b,
        (Value::Bytes(a), Value::Bytes(b)) => bytes_equal(a, b),
        (Value::String(a), Value::String(b)) => a.eq(b),
        _ => false,
    }
}

/// Negation of [`apply_equal`].
pub fn apply_not_equal(left: &Value, right: &Value) -> (r: bool)
    ensures
        r == !values_equal(*left, *right),
{
    !apply_equal(left, right)
}

/// Whether two integer values have a set bit in common; `false` when either is not an integer.
pub fn apply_bitwise_and(left: &Value, right: &Value) -> (r: bool)
    ensures
        r == bits_overlap(*left, *right),
{
    match (left, right) {
        (Value::Uint(a), Value::Uint(b)) => (*a & *b) != 0,
        (Value::Int(a), Value::Int(b)) => ((*a as u64) & (*b as u64)) != 0,
        (Value::Uint(a), Value::Int(b)) => (*a & (*b as u64)) != 0,
        (Value::Int(a), Value::Uint(b)) => ((*a as u64) & *b) != 0,
        _ => false,
    }
}

/// Applies `operator` to the decoded value `left` and the literal `right`.
pub fn apply_operator(operator: &Operator, left: &Value, right: &Value) -> (r: bool)
    ensures
        r == operator_holds(*operator, *left, *right),
{
    match operator {
        Operator::Equal => apply_equal(left, right),
        Operator::NotEqual => apply_not_equal(left, right),
        Operator::BitwiseAnd => apply_bitwise_and(left, right),
    }
}

/// Equality is symmetric, and an unsigned and a signed value are never equal,
/// whatever their numbers.
pub proof fn lemma_equal_symmetric_and_type_strict(a: Value, b: Value, x: u64, y: i64)
    ensures
        values_equal(a, b) == values_equal(b, a),
        operator_holds(Operator::Equal, a, b) == operator_holds(Operator::Equal, b, a),
        !values_equal(Value::Uint(x), Value::Int(y)),
        !values_equal(Value::Int(y), Value::Uint(x)),
{
}

/// `NotEqual` holds exactly when `Equal` does not.
pub proof fn lemma_not_equal_is_negation(a: Value, b: Value)
    ensures
        operator_holds(Operator::NotEqual, a, b) == !operator_holds(Operator::Equal, a, b),
{
}

/// `BitwiseAnd` is commutative, and never holds when either side is bytes or text.
pub proof fn lemma_bitwise_and_commutative(a: Value, b: Value)
    ensures
        operator_holds(Operator::BitwiseAnd, a, b) == operator_holds(Operator::BitwiseAnd, b, a),
        (a is Bytes || a is String || b is Bytes || b is String) ==> !operator_holds(
            Operator::BitwiseAnd,
            a,
            b,
        ),
{
    match (bit_pattern(a), bit_pattern(b)) {
        (Some(x), Some(y)) => {
            assert(x & y == y & x) by (bit_vector);
        },
        _ => {},
    }
}

} // verus!
