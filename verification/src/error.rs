//! The ways in which an expression can fail, one type for each stage.
//!
//! Every error has a `message`, a sentence for the person who typed the
//! expression, and a `text`, the same sentence in specifications.

use crate::number::decimal_text;
use crate::number::Number;
use crate::token::Operator;
use vstd::prelude::*;

verus! {

/// A failure while scanning the characters.
#[derive(Debug, Clone, Copy, PartialEq, Eq, Structural)]
pub enum LexError {
    /// A character that begins no token.
    InvalidCharacter(char),
    /// A second decimal point within one numeral.
    MultipleDecimalPoint,
    /// A numeral that no number can hold.
    NumberOutOfRange,
}

/// A failure while checking how the tokens follow each other.
#[derive(Debug, Clone, Copy, PartialEq, Eq, Structural)]
pub enum SyntaxError {
    /// The tokens do not end with `EOF`.
    MissingTerminator,
    /// A number directly after a number: the earlier one, then the later one.
    DuplicateOperand(Number, Number),
    /// A number directly after a closing parenthesis.
    MissingOperator(Number),
    /// An operator after an operator that does not take it as a sign: the
    /// earlier one, then the later one.
    UnexpectedOperator(Operator, Operator),
    /// An operator other than a sign directly after an opening parenthesis.
    UnexpectedOperatorAfterOpenParen(Operator),
    /// An operator other than a sign at the start.
    LeadingOperatorNotSign(Operator),
    /// A parenthesis without its partner.
    UnmatchedParenthesis,
}

/// A failure while building the tree.
#[derive(Debug, Clone, Copy, PartialEq, Eq, Structural)]
pub enum StructuralError {
    /// An operator with fewer than two operands before it.
    InsufficientOperands,
    /// No tree at all, or more than one.
    MalformedExpression,
}

/// A failure while computing.
#[derive(Debug, Clone, Copy, PartialEq, Eq, Structural)]
pub enum ArithmeticError {
    /// A division whose divisor is zero.
    DivisionByZero,
    /// A sum, difference, product or quotient out of range.
    Overflow,
    /// A power for which there is no result in range.
    UndefinedPower,
}

/// Any failure between the text and the value.
#[derive(Debug, Clone, Copy, PartialEq, Eq, Structural)]
pub enum CalcError {
    Lex(LexError),
    Syntax(SyntaxError),
    Structure(StructuralError),
    Arithmetic(ArithmeticError),
}

impl LexError {
    /// The message in specifications.
    pub open spec fn text(self) -> Seq<char> {
        match self {
            LexError::InvalidCharacter(c) => "error character: "@.push(c),
            LexError::MultipleDecimalPoint => "Multiple decimal point."@,
            LexError::NumberOutOfRange => "Number out of range."@,
        }
    }

    /// The message.
    pub fn message(&self) -> (s: String)
        ensures
            s@ == self.text(),
    {
        match self {
            LexError::InvalidCharacter(c) => {
                let mut s = String::from_str("error character: ");
                s.push(*c);
                s
            },
            LexError::MultipleDecimalPoint => String::from_str("Multiple decimal point."),
            LexError::NumberOutOfRange => String::from_str("Number out of range."),
        }
    }
}

impl SyntaxError {
    /// Well-formedness: the numbers of the error are well-formed.
    pub open spec fn wf(self) -> bool {
        match self {
            SyntaxError::DuplicateOperand(prev, n) => prev.wf() && n.wf(),
            SyntaxError::MissingOperator(n) => n.wf(),
            _ => true,
        }
    }

    /// The message, given how the first and the second number of the error are
    /// written.
    pub open spec fn text_with(self, first: Seq<char>, second: Seq<char>) -> Seq<char> {
        match self {
            SyntaxError::MissingTerminator => "Errors occurs before translating"@,
            SyntaxError::DuplicateOperand(_, _) => "Expected operator or eof behind num: '"@ + first
                + "', found num: '"@ + second + "'"@,
            SyntaxError::MissingOperator(_) => "Expected operator or eof behind ')', found num: '"@
                + first + "'"@,
            SyntaxError::UnexpectedOperator(prev, op) => "Expected num or parenthesis behind '"@
                + prev.text() + "', found operator: '"@ + op.text() + "'"@,
            SyntaxError::UnexpectedOperatorAfterOpenParen(op) =>
                "Expected num or expr behind '(', found operator: '"@ + op.text() + "'"@,
            SyntaxError::LeadingOperatorNotSign(op) =>
                "Expected a num or '(' to start an expr, found '"@ + op.text() + "'"@,
            SyntaxError::UnmatchedParenthesis => "Unmatched brackets"@,
        }
    }

    /// The message in specifications.
    pub open spec fn text(self) -> Seq<char> {
        match self {
            SyntaxError::DuplicateOperand(prev, n) => self.text_with(
                decimal_text(prev),
                decimal_text(n),
            ),
            SyntaxError::MissingOperator(n) => self.text_with(decimal_text(n), Seq::empty()),
            _ => self.text_with(Seq::empty(), Seq::empty()),
        }
    }

    /// The message, built around the numbers as they are written. An error
    /// that holds fewer than two numbers leaves the arguments it has no use for
    /// unread.
    pub fn message_with(&self, first: &str, second: &str) -> (s: String)
        ensures
            s@ == self.text_with(first@, second@),
    {
        match self {
            SyntaxError::MissingTerminator => String::from_str("Errors occurs before translating"),
            SyntaxError::DuplicateOperand(_, _) => {
                let mut s = String::from_str("Expected operator or eof behind num: '");
                s.append(first);
                s.append("', found num: '");
                s.append(second);
                s.append("'");
                s
            },
            SyntaxError::MissingOperator(_) => {
                let mut s = String::from_str("Expected operator or eof behind ')', found num: '");
                s.append(first);
                s.append("'");
                s
            },
            SyntaxError::UnexpectedOperator(prev, op) => {
                let mut s = String::from_str("Expected num or parenthesis behind '");
                s.append(prev.symbol());
                s.append("', found operator: '");
                s.append(op.symbol());
                s.append("'");
                s
            },
            SyntaxError::UnexpectedOperatorAfterOpenParen(op) => {
                let mut s = String::from_str("Expected num or expr behind '(', found operator: '");
                s.append(op.symbol());
                s.append("'");
                s
            },
            SyntaxError::LeadingOperatorNotSign(op) => {
                let mut s = String::from_str("Expected a num or '(' to start an expr, found '");
                s.append(op.symbol());
                s.append("'");
                s
            },
            SyntaxError::UnmatchedParenthesis => String::from_str("Unmatched brackets"),
        }
    }

    /// The message.
    pub fn message(&self) -> (s: String)
        requires
            self.wf(),
        ensures
            s@ == self.text(),
    {
        match self {
            SyntaxError::DuplicateOperand(prev, n) => {
                let first = prev.to_string();
                let second = n.to_string();
                self.message_with(first.as_str(), second.as_str())
            },
            SyntaxError::MissingOperator(n) => {
                let first = n.to_string();
                let s = self.message_with(first.as_str(), "");
                assert(s@ == self.text_with(decimal_text(*n), Seq::empty()));
                s
            },
            _ => {
                let s = self.message_with("", "");
                assert(s@ == self.text_with(Seq::empty(), Seq::empty()));
                s
            },
        }
    }
}

impl StructuralError {
    /// The message in specifications.
    pub open spec fn text(self) -> Seq<char> {
        match self {
            StructuralError::InsufficientOperands => "Insufficient operands for operator"@,
            StructuralError::MalformedExpression => "Malformed expression"@,
        }
    }

    /// The message.
    pub fn message(&self) -> (s: String)
        ensures
            s@ == self.text(),
    {
        match self {
            StructuralError::InsufficientOperands => String::from_str(
                "Insufficient operands for operator",
            ),
            StructuralError::MalformedExpression => String::from_str("Malformed expression"),
        }
    }
}

impl ArithmeticError {
    /// The message in specifications.
    pub open spec fn text(self) -> Seq<char> {
        match self {
            ArithmeticError::DivisionByZero => "Division by zero"@,
            ArithmeticError::Overflow => "Arithmetic overflow"@,
            ArithmeticError::UndefinedPower => "Power has no result"@,
        }
    }

    /// The message.
    pub fn message(&self) -> (s: String)
        ensures
            s@ == self.text(),
    {
        match self {
            ArithmeticError::DivisionByZero => String::from_str("Division by zero"),
            ArithmeticError::Overflow => String::from_str("Arithmetic overflow"),
            ArithmeticError::UndefinedPower => String::from_str("Power has no result"),
        }
    }
}

impl CalcError {
    /// Well-formedness: the numbers of the error are well-formed.
    pub open spec fn wf(self) -> bool {
        match self {
            CalcError::Syntax(e) => e.wf(),
            _ => true,
        }
    }

    /// The message in specifications: that of the error inside.
    pub open spec fn text(self) -> Seq<char> {
        match self {
            CalcError::Lex(e) => e.text(),
            CalcError::Syntax(e) => e.text(),
            CalcError::Structure(e) => e.text(),
            CalcError::Arithmetic(e) => e.text(),
        }
    }

    /// The message.
    pub fn message(&self) -> (s: String)
        requires
            self.wf(),
        ensures
            s@ == self.text(),
    {
        match self {
            CalcError::Lex(e) => e.message(),
            CalcError::Syntax(e) => e.message(),
            CalcError::Structure(e) => e.message(),
            CalcError::Arithmetic(e) => e.message(),
        }
    }
}

} // verus!
