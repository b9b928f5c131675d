//! An arithmetic expression evaluator over exact decimals.
//!
//! Text is turned into a value in stages: scanning into tokens, checking the
//! tokens and settling their signs, ordering them by precedence into postfix
//! form, building a tree, and evaluating the tree. [`expr`] runs them all.

use vstd::prelude::*;

pub mod ast;
pub mod builder;
pub mod error;
pub mod grouping;
pub mod normalizer;
pub mod number;
pub mod parentheses;
pub mod parser;
pub mod postfix;
pub mod theorems;
pub mod token;
pub mod tokenizer;

verus! {

/// The value of the expression that a text denotes, or the first error on the
/// way to it.
pub open spec fn evaluated(text: Seq<char>) -> Result<number::Number, error::CalcError> {
    match parser::parsed(text) {
        Err(e) => Err(e),
        Ok(ast) => match ast.value() {
            Ok(v) => Ok(v),
            Err(e) => Err(error::CalcError::Arithmetic(e)),
        },
    }
}

/// Evaluates an arithmetic expression.
///
/// The expression is made of decimal numerals, the operators `+ - * / ^`,
/// parentheses and whitespace. `+` and `-` may also stand, alone or in a run,
/// in front of a number.
pub fn expr(text: &str) -> (r: Result<number::Number, error::CalcError>)
    ensures
        r == evaluated(text@),
        r matches Ok(v) ==> v.wf(),
        r matches Err(e) ==> e.wf(),
{
    let ast = match parser::Parser::parse(text) {
        Ok(ast) => ast,
        Err(e) => {
            return Err(e);
        },
    };
    match ast.eval() {
        Ok(v) => Ok(v),
        Err(e) => Err(error::CalcError::Arithmetic(e)),
    }
}

} // verus!
