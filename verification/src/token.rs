//! Operators and tokens.

use crate::number::decimal_text;
use crate::number::Number;
use vstd::prelude::*;

verus! {

/// `String::push` appends the character to the end of the string.
pub assume_specification[ String::push ](s: &mut String, ch: char)
    ensures
        final(s)@ == old(s)@.push(ch),
;

/// A binary arithmetic operator.
#[derive(Debug, Clone, Copy, PartialEq, Eq, Structural)]
pub enum Operator {
    Add,
    Sub,
    Mul,
    Div,
    Pow,
}

impl Operator {
    /// Binding strength as a number: the larger, the tighter.
    pub open spec fn rank(self) -> nat {
        match self {
            Operator::Add | Operator::Sub => 1,
            Operator::Mul | Operator::Div => 2,
            Operator::Pow => 3,
        }
    }

    /// Whether `a op b op c` groups as `(a op b) op c`.
    pub open spec fn groups_left(self) -> bool {
        self != Operator::Pow
    }

    /// How the operator is written.
    pub open spec fn text(self) -> Seq<char> {
        match self {
            Operator::Add => "+"@,
            Operator::Sub => "-"@,
            Operator::Mul => "*"@,
            Operator::Div => "/"@,
            Operator::Pow => "^"@,
        }
    }

    /// The binding strength of the operator.
    pub fn priority(&self) -> (p: u8)
        ensures
            p == self.rank(),
    {
        match self {
            Operator::Add | Operator::Sub => 1,
            Operator::Mul | Operator::Div => 2,
            Operator::Pow => 3,
        }
    }

    /// Whether the operator is left-associative: every operator but `Pow` is.
    pub fn is_left_associative(self) -> (b: bool)
        ensures
            b == self.groups_left(),
    {
        if self == Operator::Pow {
            false
        } else {
            true
        }
    }

    /// The operator as it is written.
    pub fn symbol(&self) -> (s: &'static str)
        ensures
            s@ == self.text(),
    {
        match self {
            Operator::Add => "+",
            Operator::Sub => "-",
            Operator::Mul => "*",
            Operator::Div => "/",
            Operator::Pow => "^",
        }
    }

    /// The operator as it is written, as an owned string.
    pub fn to_string(&self) -> (s: String)
        ensures
            s@ == self.text(),
    {
        String::from_str(self.symbol())
    }
}

/// A lexical unit of an expression.
#[derive(Debug, Clone, Copy, PartialEq, Eq, Structural)]
pub enum Token {
    /// An operator.
    Op(Operator),
    /// A parenthesis: `'('` or `')'`.
    Paren(char),
    /// A number.
    Num(Number),
    /// The end of the input.
    EOF,
}

impl Token {
    /// Well-formedness: a parenthesis is one of the two, a number is well-formed.
    pub open spec fn wf(self) -> bool {
        match self {
            Token::Paren(c) => c == '(' || c == ')',
            Token::Num(n) => n.wf(),
            _ => true,
        }
    }

    /// How the token is written.
    pub open spec fn text(self) -> Seq<char> {
        match self {
            Token::Op(op) => op.text(),
            Token::Paren(c) => seq![c],
            Token::Num(n) => decimal_text(n),
            Token::EOF => "EOF"@,
        }
    }

    /// The token as it is written.
    pub fn to_string(&self) -> (s: String)
        requires
            self.wf(),
        ensures
            s@ == self.text(),
    {
        match self {
            Token::Op(op) => op.to_string(),
            Token::Paren(c) => {
                let mut s = String::new();
                s.push(*c);
                assert(s@ =~= seq![*c]);
                s
            },
            Token::Num(n) => n.to_string(),
            Token::EOF => String::from_str("EOF"),
        }
    }
}

/// Whether every token of the sequence is well-formed.
pub open spec fn all_wf(tokens: Seq<Token>) -> bool {
    forall|i: int| 0 <= i < tokens.len() ==> (#[trigger] tokens[i]).wf()
}

} // verus!
