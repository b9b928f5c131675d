//! From text to expression tree: scanning, checking, ordering and building,
//! one after the other. The first stage that fails ends it.

use crate::ast::Ast;
use crate::builder::built;
use crate::builder::parse;
use crate::error::CalcError;
use crate::normalizer::basic_check;
use crate::normalizer::normalized;
use crate::postfix::get_rpn;
use crate::postfix::postfix;
use crate::token::Token;
use crate::tokenizer::lexed;
use crate::tokenizer::tokenize;
use vstd::prelude::*;

verus! {

/// The expression that a token sequence denotes, or the first error on the way
/// to it.
pub open spec fn parsed_tokens(tokens: Seq<Token>) -> Result<Ast, CalcError> {
    match normalized(tokens) {
        Err(e) => Err(CalcError::Syntax(e)),
        Ok(checked) => match postfix(checked) {
            Err(e) => Err(CalcError::Syntax(e)),
            Ok(ordered) => match built(ordered) {
                Err(e) => Err(CalcError::Structure(e)),
                Ok(ast) => Ok(ast),
            },
        },
    }
}

/// The expression that a text denotes, or the first error on the way to it.
pub open spec fn parsed(text: Seq<char>) -> Result<Ast, CalcError> {
    match lexed(text) {
        Err(e) => Err(CalcError::Lex(e)),
        Ok(tokens) => parsed_tokens(tokens),
    }
}

/// The parser of expressions.
pub struct Parser;

impl Parser {
    /// Parses a text into its expression tree.
    pub fn parse(expr: &str) -> (r: Result<Ast, CalcError>)
        ensures
            r == parsed(expr@),
            r matches Ok(ast) ==> ast.wf(),
            r matches Err(e) ==> e.wf(),
    {
        let tokens = match tokenize(expr) {
            Ok(tokens) => tokens,
            Err(e) => {
                return Err(CalcError::Lex(e));
            },
        };
        let checked = match basic_check(tokens) {
            Ok(checked) => checked,
            Err(e) => {
                return Err(CalcError::Syntax(e));
            },
        };
        let ordered = match get_rpn(checked) {
            Ok(ordered) => ordered,
            Err(e) => {
                return Err(CalcError::Syntax(e));
            },
        };
        match parse(ordered) {
            Ok(ast) => Ok(ast),
            Err(e) => Err(CalcError::Structure(e)),
        }
    }
}

} // verus!
