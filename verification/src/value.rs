//! Runtime values, their arithmetic, and the ways an evaluation can fail.

use vstd::prelude::*;
use crate::scan::str_eq;

verus! {

/// A runtime value.
#[derive(Debug, PartialEq)]
pub enum Value {
    String(String),
    Number(i32),
    Bool(bool),
}

/// The mathematical model of a [`Value`].
pub enum Datum {
    String(Seq<char>),
    Number(i32),
    Bool(bool),
}

impl View for Value {
    type V = Datum;

    open spec fn view(&self) -> Datum {
        match self {
            Value::String(s) => Datum::String(s@),
            Value::Number(n) => Datum::Number(*n),
            Value::Bool(b) => Datum::Bool(*b),
        }
    }
}

impl Clone for Value {
    fn clone(&self) -> (copy: Value)
        ensures
            copy@ == self@,
    {
        match self {
            Value::String(s) => Value::String(s.clone()),
            Value::Number(n) => Value::Number(*n),
            Value::Bool(b) => Value::Bool(*b),
        }
    }
}

/// Why an evaluation failed.
#[derive(Debug, Clone, Copy, PartialEq, Eq, Structural)]
pub enum EvalError {
    /// An identifier has no binding in the current frame, or there is no
    /// frame.
    UndefinedVariable,
    /// A call names a function that the function table does not hold.
    UndefinedFunction,
    /// A call passes a number of arguments other than the number of
    /// parameters.
    ArityMismatch,
    /// An arithmetic operator met a value that is not a number.
    TypeMismatch,
    /// A division whose right-hand operand is zero.
    DivisionByZero,
    /// A call would make the call stack deeper than [`MAX_DEPTH`] frames.
    StackExhausted,
    /// What was carried out yields no value: a function definition, or a
    /// call of a function without statements.
    NoValue,
    /// The tree is not one that the parser builds: a node of a kind that
    /// cannot be evaluated, or one with the wrong children.
    Malformed,
}

/// The greatest number of frames on the call stack.
pub const MAX_DEPTH: usize = 128;

/// The four arithmetic operators.
#[derive(Debug, Clone, Copy, PartialEq, Eq, Structural)]
pub enum Operator {
    Add,
    Subtract,
    Multiply,
    Divide,
}

/// The operator that a sign stands for.
pub open spec fn operator_of(sign: Seq<char>) -> Option<Operator> {
    if sign == seq!['+'] {
        Some(Operator::Add)
    } else if sign == seq!['-'] {
        Some(Operator::Subtract)
    } else if sign == seq!['*'] {
        Some(Operator::Multiply)
    } else if sign == seq!['/'] {
        Some(Operator::Divide)
    } else {
        None
    }
}

/// The 32-bit signed integer that is congruent to `x` modulo 2^32.
pub open spec fn wrap(x: int) -> i32 {
    let r = x % 0x1_0000_0000;
    if r > i32::MAX {
        (r - 0x1_0000_0000) as i32
    } else {
        r as i32
    }
}

/// The quotient of `a` by `b` rounded toward zero; `b` is not zero.
pub open spec fn quotient(a: int, b: int) -> int {
    if a >= 0 && b > 0 {
        a / b
    } else if a >= 0 {
        -(a / (-b))
    } else if b > 0 {
        -((-a) / b)
    } else {
        (-a) / (-b)
    }
}

/// The result of an operator on two numbers. Sums, differences, products
/// and quotients that leave the 32-bit range wrap around; a division by zero
/// fails.
pub open spec fn apply(op: Operator, a: i32, b: i32) -> Result<i32, EvalError> {
    match op {
        Operator::Add => Ok(wrap(a + b)),
        Operator::Subtract => Ok(wrap(a - b)),
        Operator::Multiply => Ok(wrap(a * b)),
        Operator::Divide => if b == 0 {
            Err(EvalError::DivisionByZero)
        } else {
            Ok(wrap(quotient(a as int, b as int)))
        },
    }
}

/// Reads the sign of an operator.
pub fn operator(sign: &str) -> (op: Option<Operator>)
    ensures
        op == operator_of(sign@),
{
    proof {
        reveal_strlit("+");
        reveal_strlit("-");
        reveal_strlit("*");
        reveal_strlit("/");
        assert("+"@ =~= seq!['+']);
        assert("-"@ =~= seq!['-']);
        assert("*"@ =~= seq!['*']);
        assert("/"@ =~= seq!['/']);
    }
    if str_eq(sign, "+") {
        Some(Operator::Add)
    } else if str_eq(sign, "-") {
        Some(Operator::Subtract)
    } else if str_eq(sign, "*") {
        Some(Operator::Multiply)
    } else if str_eq(sign, "/") {
        Some(Operator::Divide)
    } else {
        None
    }
}

/// Computes an operator on two numbers.
pub fn compute(op: Operator, a: i32, b: i32) -> (r: Result<i32, EvalError>)
    ensures
        r == apply(op, a, b),
{
    match op {
        Operator::Add => {
            let s = a.wrapping_add(b);
            assert(s == wrap(a + b));
            Ok(s)
        },
        Operator::Subtract => {
            let d = a.wrapping_sub(b);
            assert(d == wrap(a - b));
            Ok(d)
        },
        Operator::Multiply => {
            let p = a.wrapping_mul(b);
            assert(p == wrap(a * b));
            Ok(p)
        },
        Operator::Divide => {
            if b == 0 {
                Err(EvalError::DivisionByZero)
            } else {
                match a.checked_div(b) {
                    Some(q) => {
                        assert(q == quotient(a as int, b as int));
                        Ok(q)
                    },
                    None => {
                        assert(a == i32::MIN && b == -1) by (nonlinear_arith)
                            requires
                                b != 0,
                                a.checked_div(b) is None,
                        ;
                        assert(wrap(quotient(a as int, b as int)) == i32::MIN);
                        Ok(i32::MIN)
                    },
                }
            }
        },
    }
}

} // verus!
