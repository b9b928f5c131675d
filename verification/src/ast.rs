//! Expression trees and their values.
//!
//! The value of a tree is computed from the leaves up, the left operand before
//! the right one; the first failure is the result. A division by zero is an
//! error of its own, found before `rust_decimal` is asked. Sums, differences,
//! products and quotients that `rust_decimal` cannot represent are overflows.
//! A power is whatever `rust_decimal` makes of it, also for a negative base
//! under a fractional exponent; where it has no result, the power is undefined.

use crate::error::ArithmeticError;
use crate::number::decimal_add;
use crate::number::decimal_difference;
use crate::number::decimal_div;
use crate::number::decimal_mul;
use crate::number::decimal_pow;
use crate::number::decimal_power;
use crate::number::decimal_product;
use crate::number::decimal_quotient;
use crate::number::decimal_sub;
use crate::number::decimal_sum;
use crate::number::Number;
use crate::token::Operator;
use vstd::prelude::*;

verus! {

/// An expression: a number, or an operator over two expressions.
#[derive(Debug, PartialEq)]
pub enum Node {
    Add(Box<Node>, Box<Node>),
    Sub(Box<Node>, Box<Node>),
    Mul(Box<Node>, Box<Node>),
    Div(Box<Node>, Box<Node>),
    Pow(Box<Node>, Box<Node>),
    Num(Number),
}

/// A whole expression, by its root.
#[derive(Debug, PartialEq)]
pub struct Ast(pub Node);

/// What `rust_decimal` answers when asked for `lhs op rhs`.
pub open spec fn outcome(op: Operator, lhs: Number, rhs: Number) -> Option<Number> {
    match op {
        Operator::Add => decimal_sum(lhs, rhs),
        Operator::Sub => decimal_difference(lhs, rhs),
        Operator::Mul => decimal_product(lhs, rhs),
        Operator::Div => decimal_quotient(lhs, rhs),
        Operator::Pow => decimal_power(lhs, rhs),
    }
}

/// The result of an operation, given the answer to it: the answer where there
/// is one, else the error that belongs to the operator.
pub open spec fn settled(op: Operator, answer: Option<Number>) -> Result<Number, ArithmeticError> {
    match answer {
        Some(v) => Ok(v),
        None => Err(
            if op == Operator::Pow {
                ArithmeticError::UndefinedPower
            } else {
                ArithmeticError::Overflow
            },
        ),
    }
}

/// The result of `lhs op rhs`.
pub open spec fn applied(op: Operator, lhs: Number, rhs: Number) -> Result<
    Number,
    ArithmeticError,
> {
    if op == Operator::Div && rhs.zero() {
        Err(ArithmeticError::DivisionByZero)
    } else {
        settled(op, outcome(op, lhs, rhs))
    }
}

/// The result of an operation over the results of its operands: the first
/// failure among them, left before right, or else the operation applied.
pub open spec fn combined(
    op: Operator,
    lhs: Result<Number, ArithmeticError>,
    rhs: Result<Number, ArithmeticError>,
) -> Result<Number, ArithmeticError> {
    match (lhs, rhs) {
        (Err(e), _) => Err(e),
        (Ok(_), Err(e)) => Err(e),
        (Ok(a), Ok(b)) => applied(op, a, b),
    }
}

impl Node {
    /// The expression `left op right`.
    pub open spec fn binary(op: Operator, left: Node, right: Node) -> Node {
        match op {
            Operator::Add => Node::Add(Box::new(left), Box::new(right)),
            Operator::Sub => Node::Sub(Box::new(left), Box::new(right)),
            Operator::Mul => Node::Mul(Box::new(left), Box::new(right)),
            Operator::Div => Node::Div(Box::new(left), Box::new(right)),
            Operator::Pow => Node::Pow(Box::new(left), Box::new(right)),
        }
    }

    /// Well-formedness: every number in the tree is well-formed.
    pub open spec fn wf(self) -> bool
        decreases self,
    {
        match self {
            Node::Add(l, r) => l.wf() && r.wf(),
            Node::Sub(l, r) => l.wf() && r.wf(),
            Node::Mul(l, r) => l.wf() && r.wf(),
            Node::Div(l, r) => l.wf() && r.wf(),
            Node::Pow(l, r) => l.wf() && r.wf(),
            Node::Num(n) => n.wf(),
        }
    }

    /// The value of the expression, or the first failure on the way to it.
    pub open spec fn value(self) -> Result<Number, ArithmeticError>
        decreases self,
    {
        match self {
            Node::Add(l, r) => combined(Operator::Add, l.value(), r.value()),
            Node::Sub(l, r) => combined(Operator::Sub, l.value(), r.value()),
            Node::Mul(l, r) => combined(Operator::Mul, l.value(), r.value()),
            Node::Div(l, r) => combined(Operator::Div, l.value(), r.value()),
            Node::Pow(l, r) => combined(Operator::Pow, l.value(), r.value()),
            Node::Num(n) => Ok(n),
        }
    }

    /// Builds the expression `left op right`.
    pub fn new_binary(op: Operator, left: Node, right: Node) -> (node: Node)
        ensures
            node == Node::binary(op, left, right),
    {
        match op {
            Operator::Add => Node::Add(Box::new(left), Box::new(right)),
            Operator::Sub => Node::Sub(Box::new(left), Box::new(right)),
            Operator::Mul => Node::Mul(Box::new(left), Box::new(right)),
            Operator::Div => Node::Div(Box::new(left), Box::new(right)),
            Operator::Pow => Node::Pow(Box::new(left), Box::new(right)),
        }
    }

    /// Evaluates the expression: the left operand, then the right one, then
    /// the operator on the two values. The first failure ends it.
    pub fn eval(&self) -> (r: Result<Number, ArithmeticError>)
        requires
            self.wf(),
        ensures
            r == self.value(),
            r matches Ok(v) ==> v.wf(),
        decreases self,
    {
        let (op, left, right) = match self {
            Node::Add(l, r) => (Operator::Add, l, r),
            Node::Sub(l, r) => (Operator::Sub, l, r),
            Node::Mul(l, r) => (Operator::Mul, l, r),
            Node::Div(l, r) => (Operator::Div, l, r),
            Node::Pow(l, r) => (Operator::Pow, l, r),
            Node::Num(n) => {
                return Ok(*n);
            },
        };
        let a = match left.eval() {
            Ok(a) => a,
            Err(e) => {
                return Err(e);
            },
        };
        let b = match right.eval() {
            Ok(b) => b,
            Err(e) => {
                return Err(e);
            },
        };
        apply(op, a, b)
    }
}

impl Clone for Node {
    /// A copy of the tree, equal to it.
    fn clone(&self) -> (res: Self)
        ensures
            res == *self,
        decreases self,
    {
        match self {
            Node::Add(l, r) => Node::Add(Box::new((&**l).clone()), Box::new((&**r).clone())),
            Node::Sub(l, r) => Node::Sub(Box::new((&**l).clone()), Box::new((&**r).clone())),
            Node::Mul(l, r) => Node::Mul(Box::new((&**l).clone()), Box::new((&**r).clone())),
            Node::Div(l, r) => Node::Div(Box::new((&**l).clone()), Box::new((&**r).clone())),
            Node::Pow(l, r) => Node::Pow(Box::new((&**l).clone()), Box::new((&**r).clone())),
            Node::Num(n) => Node::Num(*n),
        }
    }
}

impl Clone for Ast {
    /// A copy of the expression, equal to it.
    fn clone(&self) -> (res: Self)
        ensures
            res == *self,
    {
        Ast(self.0.clone())
    }
}

impl Ast {
    /// Well-formedness: the tree is well-formed.
    pub open spec fn wf(self) -> bool {
        self.0.wf()
    }

    /// The value of the expression.
    pub open spec fn value(self) -> Result<Number, ArithmeticError> {
        self.0.value()
    }

    /// Evaluates the expression.
    pub fn eval(&self) -> (r: Result<Number, ArithmeticError>)
        requires
            self.wf(),
        ensures
            r == self.value(),
            r matches Ok(v) ==> v.wf(),
    {
        self.0.eval()
    }
}

/// Turns the answer to an operation into its result.
pub fn settle(op: Operator, answer: Option<Number>) -> (r: Result<Number, ArithmeticError>)
    ensures
        r == settled(op, answer),
{
    match answer {
        Some(v) => Ok(v),
        None => match op {
            Operator::Pow => Err(ArithmeticError::UndefinedPower),
            _ => Err(ArithmeticError::Overflow),
        },
    }
}

/// Computes `lhs op rhs`.
pub fn apply(op: Operator, lhs: Number, rhs: Number) -> (r: Result<Number, ArithmeticError>)
    requires
        lhs.wf(),
        rhs.wf(),
    ensures
        r == applied(op, lhs, rhs),
        r matches Ok(v) ==> v.wf(),
{
    let answer = match op {
        Operator::Add => decimal_add(lhs, rhs),
        Operator::Sub => decimal_sub(lhs, rhs),
        Operator::Mul => decimal_mul(lhs, rhs),
        Operator::Div => {
            if rhs.is_zero() {
                return Err(ArithmeticError::DivisionByZero);
            }
            decimal_div(lhs, rhs)
        },
        Operator::Pow => decimal_pow(lhs, rhs),
    };
    settle(op, answer)
}

} // verus!
