//! Building the expression tree from tokens in postfix form.
//!
//! The tokens are taken one by one over a stack of trees: a number becomes a
//! leaf on top of the stack, an operator takes the two topmost trees as its
//! operands, the lower one on the left, and puts the new tree in their place.
//! Parentheses and `EOF` have no place in postfix form and are passed over. At
//! the end the stack must hold the one tree that is the result.

use crate::ast::Ast;
use crate::ast::Node;
use crate::error::StructuralError;
use crate::token::all_wf;
use crate::token::Token;
use vstd::prelude::*;

verus! {

/// The stack of trees after the token `t`, or why `t` cannot be taken.
pub open spec fn with_token(stack: Seq<Node>, t: Token) -> Result<Seq<Node>, StructuralError> {
    match t {
        Token::Num(n) => Ok(stack.push(Node::Num(n))),
        Token::Op(op) => if stack.len() < 2 {
            Err(StructuralError::InsufficientOperands)
        } else {
            Ok(
                stack.take(stack.len() - 2).push(
                    Node::binary(op, stack[stack.len() - 2], stack[stack.len() - 1]),
                ),
            )
        },
        _ => Ok(stack),
    }
}

/// The expression that a stack of trees holds at the end: its one tree.
pub open spec fn rooted(stack: Seq<Node>) -> Result<Ast, StructuralError> {
    if stack.len() != 1 {
        Err(StructuralError::MalformedExpression)
    } else {
        Ok(Ast(stack[0]))
    }
}

/// What becomes of the stack of trees when the tokens from index `i` on are
/// taken.
pub open spec fn built_from(tokens: Seq<Token>, i: int, stack: Seq<Node>) -> Result<
    Ast,
    StructuralError,
>
    decreases tokens.len() - i,
{
    if i < 0 || i >= tokens.len() {
        rooted(stack)
    } else {
        match with_token(stack, tokens[i]) {
            Ok(next) => built_from(tokens, i + 1, next),
            Err(e) => Err(e),
        }
    }
}

/// The expression that a postfix token sequence denotes.
pub open spec fn built(tokens: Seq<Token>) -> Result<Ast, StructuralError> {
    built_from(tokens, 0, Seq::empty())
}

/// Whether every tree of the sequence is well-formed.
pub open spec fn all_trees_wf(stack: Seq<Node>) -> bool {
    forall|i: int| 0 <= i < stack.len() ==> (#[trigger] stack[i]).wf()
}

/// Builds the expression tree of a postfix token sequence.
///
/// Fails with `InsufficientOperands` at the first operator that finds fewer
/// than two trees before it, and with `MalformedExpression` where the tokens
/// leave no tree or more than one.
pub fn parse(tokens: Vec<Token>) -> (r: Result<Ast, StructuralError>)
    requires
        all_wf(tokens@),
    ensures
        r == built(tokens@),
        r matches Ok(ast) ==> ast.wf(),
{
    let mut stack: Vec<Node> = Vec::new();
    let n = tokens.len();
    let mut i: usize = 0;
    while i < n
        invariant
            i <= n,
            n == tokens.len(),
            all_wf(tokens@),
            all_trees_wf(stack@),
            built_from(tokens@, i as int, stack@) == built(tokens@),
        decreases n - i,
    {
        let token = tokens[i];
        assert(token.wf());
        match token {
            Token::Num(number) => {
                stack.push(Node::Num(number));
            },
            Token::Op(op) => {
                if stack.len() < 2 {
                    return Err(StructuralError::InsufficientOperands);
                }
                let ghost before = stack@;
                let right = stack.pop().unwrap();
                let left = stack.pop().unwrap();
                assert(right == before[before.len() - 1] && right.wf());
                assert(left == before[before.len() - 2] && left.wf());
                assert(stack@ == before.take(before.len() - 2));
                let node = Node::new_binary(op, left, right);
                assert(node.wf());
                stack.push(node);
            },
            _ => {},
        }
        i = i + 1;
    }
    if stack.len() != 1 {
        Err(StructuralError::MalformedExpression)
    } else {
        Ok(Ast(stack.pop().unwrap()))
    }
}

} // verus!
