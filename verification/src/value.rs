use crate::number::num_eq;
use vstd::prelude::*;

verus! {

/// A runtime value of the expression language: the dynamically typed result
/// of evaluating an expression tree. Numbers are held as the bit pattern of
/// an IEEE 754 binary64 value.
#[derive(Debug, PartialEq)]
pub enum LiteralValue {
    Nil,
    Bool(bool),
    String(String),
    Number(u64),
}

/// The mathematical model of a runtime value.
pub enum SpecValue {
    Nil,
    Bool(bool),
    String(Seq<char>),
    Number(u64),
}

impl View for LiteralValue {
    type V = SpecValue;

    open spec fn view(&self) -> SpecValue {
        match self {
            LiteralValue::Nil => SpecValue::Nil,
            LiteralValue::Bool(b) => SpecValue::Bool(*b),
            LiteralValue::String(s) => SpecValue::String(s@),
            LiteralValue::Number(bits) => SpecValue::Number(*bits),
        }
    }
}

/// Truthiness: only `Nil` and `Bool(false)` are falsy; every other value,
/// including numeric zero and the empty string, is truthy.
pub open spec fn spec_truthy(v: SpecValue) -> bool {
    match v {
        SpecValue::Nil => false,
        SpecValue::Bool(b) => b,
        _ => true,
    }
}

/// Structural equality of two runtime values: values of different variants
/// are never equal (no coercion); numbers compare by IEEE 754 equality.
pub open spec fn spec_equal_values(a: SpecValue, b: SpecValue) -> bool {
    match (a, b) {
        (SpecValue::Nil, SpecValue::Nil) => true,
        (SpecValue::Bool(x), SpecValue::Bool(y)) => x == y,
        (SpecValue::String(x), SpecValue::String(y)) => x == y,
        (SpecValue::Number(x), SpecValue::Number(y)) => num_eq(x, y),
        _ => false,
    }
}

impl LiteralValue {
    pub fn is_truthy(&self) -> (r: bool)
        ensures
            r == spec_truthy(self@),
            r <==> !(self@ is Nil || self@ == SpecValue::Bool(false)),
    {
        match self {
            LiteralValue::Nil => false,
            LiteralValue::Bool(b) => *b,
            _ => true,
        }
    }

    /// Structural equality as the evaluator applies it for `==` and `!=`.
    pub fn equals(&self, other: &LiteralValue) -> (r: bool)
        ensures
            r == spec_equal_values(self@, other@),
    {
        match (self, other) {
            (LiteralValue::Nil, LiteralValue::Nil) => true,
            (LiteralValue::Bool(x), LiteralValue::Bool(y)) => *x == *y,
            (LiteralValue::String(x), LiteralValue::String(y)) => *x == *y,
            (LiteralValue::Number(x), LiteralValue::Number(y)) => {
                crate::number::eq_numbers(*x, *y)
            },
            _ => false,
        }
    }
}

/// Values of different variants are never equal: equality never coerces
/// across types.
pub proof fn lemma_cross_variant_equality_fails(a: SpecValue, b: SpecValue)
    ensures
        !((a is Nil && b is Nil) || (a is Bool && b is Bool) || (a is String && b is String) || (
        a is Number && b is Number)) ==> !spec_equal_values(a, b),
{
}

} // verus!
