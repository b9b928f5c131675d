//! Ordering the tokens by precedence: from infix to postfix form.
//!
//! Numbers go straight to the output. Operators and opening parentheses wait on
//! a stack. An operator first sends to the output every operator on top of the
//! stack that binds at least as tightly as it does (more tightly, where that
//! one groups to the right); a closing parenthesis sends everything down to its
//! opening parenthesis. At the end the stack is emptied into the output.

use crate::error::SyntaxError;
use crate::token::all_wf;
use crate::token::Operator;
use crate::token::Token;
use vstd::prelude::*;

verus! {

/// Whether the operator `top`, on top of the stack, leaves it before `op` is
/// pushed.
pub open spec fn yields_to(top: Operator, op: Operator) -> bool {
    if top.groups_left() {
        top.rank() >= op.rank()
    } else {
        top.rank() > op.rank()
    }
}

/// The stack and the output once every operator on top of the stack that yields
/// to `op` has moved to the output.
pub open spec fn pop_yielding(stack: Seq<Token>, out: Seq<Token>, op: Operator) -> (Seq<Token>, Seq<
    Token,
>)
    decreases stack.len(),
{
    if stack.len() > 0 && (stack.last() matches Token::Op(top) && yields_to(top, op)) {
        pop_yielding(stack.drop_last(), out.push(stack.last()), op)
    } else {
        (stack, out)
    }
}

/// The stack and the output once everything above the topmost opening
/// parenthesis has moved to the output and that parenthesis is dropped; `None`
/// where the stack holds no opening parenthesis.
pub open spec fn pop_to_open(stack: Seq<Token>, out: Seq<Token>) -> Option<(Seq<Token>, Seq<Token>)>
    decreases stack.len(),
{
    if stack.len() == 0 {
        None
    } else if stack.last() == Token::Paren('(') {
        Some((stack.drop_last(), out))
    } else {
        pop_to_open(stack.drop_last(), out.push(stack.last()))
    }
}

/// The output once the whole stack has moved to it, top first; an opening
/// parenthesis on the stack has no partner.
pub open spec fn flushed(stack: Seq<Token>, out: Seq<Token>) -> Result<Seq<Token>, SyntaxError>
    decreases stack.len(),
{
    if stack.len() == 0 {
        Ok(out)
    } else if stack.last() == Token::Paren('(') {
        Err(SyntaxError::UnmatchedParenthesis)
    } else {
        flushed(stack.drop_last(), out.push(stack.last()))
    }
}

/// What becomes of the output `out`, with `stack` waiting, when the tokens from
/// index `i` on are taken. The first `EOF` ends it.
pub open spec fn postfix_from(tokens: Seq<Token>, i: int, stack: Seq<Token>, out: Seq<Token>) -> Result<
    Seq<Token>,
    SyntaxError,
>
    decreases tokens.len() - i,
{
    if i < 0 || i >= tokens.len() {
        flushed(stack, out)
    } else {
        match tokens[i] {
            Token::EOF => flushed(stack, out),
            Token::Num(_) => postfix_from(tokens, i + 1, stack, out.push(tokens[i])),
            Token::Paren(c) => if c == '(' {
                postfix_from(tokens, i + 1, stack.push(tokens[i]), out)
            } else {
                match pop_to_open(stack, out) {
                    Some((s, o)) => postfix_from(tokens, i + 1, s, o),
                    None => Err(SyntaxError::UnmatchedParenthesis),
                }
            },
            Token::Op(op) => {
                let (s, o) = pop_yielding(stack, out, op);
                postfix_from(tokens, i + 1, s.push(tokens[i]), o)
            },
        }
    }
}

/// The postfix form of a token sequence: its numbers and operators, each
/// operator after its operands; or an error for a parenthesis without partner.
pub open spec fn postfix(tokens: Seq<Token>) -> Result<Seq<Token>, SyntaxError> {
    postfix_from(tokens, 0, Seq::empty(), Seq::empty())
}

/// Moves the operators that yield to `op` from the stack to the output.
fn pop_operators(stack: &mut Vec<Token>, out: &mut Vec<Token>, op: Operator)
    requires
        all_wf(old(stack)@),
        all_wf(old(out)@),
    ensures
        (final(stack)@, final(out)@) == pop_yielding(old(stack)@, old(out)@, op),
        all_wf(final(stack)@),
        all_wf(final(out)@),
{
    loop
        invariant
            all_wf(stack@),
            all_wf(out@),
            pop_yielding(stack@, out@, op) == pop_yielding(old(stack)@, old(out)@, op),
        ensures
            (stack@, out@) == pop_yielding(old(stack)@, old(out)@, op),
        decreases stack.len(),
    {
        let len = stack.len();
        if len == 0 {
            break ;
        }
        let top = stack[len - 1];
        assert(top.wf());
        match top {
            Token::Op(top_op) => {
                let top_rank = top_op.priority();
                let rank = op.priority();
                if (top_op.is_left_associative() && top_rank >= rank) || (
                !top_op.is_left_associative() && top_rank > rank) {
                    stack.pop();
                    out.push(top);
                } else {
                    break ;
                }
            },
            _ => {
                break ;
            },
        }
    }
}

/// Moves what lies above the topmost opening parenthesis from the stack to the
/// output and drops that parenthesis. Says whether there was one.
fn pop_group(stack: &mut Vec<Token>, out: &mut Vec<Token>) -> (found: bool)
    requires
        all_wf(old(stack)@),
        all_wf(old(out)@),
    ensures
        match pop_to_open(old(stack)@, old(out)@) {
            Some((s, o)) => found && final(stack)@ == s && final(out)@ == o,
            None => !found,
        },
        all_wf(final(stack)@),
        all_wf(final(out)@),
{
    let mut found = false;
    loop
        invariant_except_break
            !found,
            pop_to_open(stack@, out@) == pop_to_open(old(stack)@, old(out)@),
        invariant
            all_wf(stack@),
            all_wf(out@),
        ensures
            match pop_to_open(old(stack)@, old(out)@) {
                Some((s, o)) => found && stack@ == s && out@ == o,
                None => !found,
            },
        decreases stack.len(),
    {
        let len = stack.len();
        if len == 0 {
            break ;
        }
        let top = stack[len - 1];
        assert(top.wf());
        stack.pop();
        match top {
            Token::Paren(c) => {
                if c == '(' {
                    found = true;
                    break ;
                }
                out.push(top);
            },
            _ => {
                out.push(top);
            },
        }
    }
    found
}

/// Empties the stack into the output.
fn flush(waiting: Vec<Token>, sent: Vec<Token>) -> (r: Result<Vec<Token>, SyntaxError>)
    requires
        all_wf(waiting@),
        all_wf(sent@),
    ensures
        match r {
            Ok(v) => flushed(waiting@, sent@) == Ok::<_, SyntaxError>(v@) && all_wf(v@),
            Err(e) => flushed(waiting@, sent@) == Err::<Seq<Token>, _>(e) && e.wf(),
        },
{
    let mut stack = waiting;
    let mut out = sent;
    while stack.len() > 0
        invariant
            all_wf(stack@),
            all_wf(out@),
            flushed(stack@, out@) == flushed(waiting@, sent@),
        decreases stack.len(),
    {
        let top = stack[stack.len() - 1];
        assert(top.wf());
        match top {
            Token::Paren(c) => {
                if c == '(' {
                    return Err(SyntaxError::UnmatchedParenthesis);
                }
            },
            _ => {},
        }
        stack.pop();
        out.push(top);
    }
    Ok(out)
}

/// Converts a token sequence from infix to postfix form.
///
/// The tokens are read up to the first `EOF`, or all of them where there is
/// none. The result holds the numbers in the order in which they came and each
/// operator after its operands; parentheses are gone. A parenthesis without
/// partner is the one way to fail.
pub fn get_rpn(tokens: Vec<Token>) -> (r: Result<Vec<Token>, SyntaxError>)
    requires
        all_wf(tokens@),
    ensures
        match r {
            Ok(v) => postfix(tokens@) == Ok::<_, SyntaxError>(v@) && all_wf(v@),
            Err(e) => postfix(tokens@) == Err::<Seq<Token>, _>(e) && e.wf(),
        },
{
    let mut out: Vec<Token> = Vec::new();
    let mut stack: Vec<Token> = Vec::new();
    let n = tokens.len();
    let mut i: usize = 0;
    while i < n
        invariant
            i <= n,
            n == tokens.len(),
            all_wf(tokens@),
            all_wf(stack@),
            all_wf(out@),
            postfix_from(tokens@, i as int, stack@, out@) == postfix(tokens@),
        decreases n - i,
    {
        let token = tokens[i];
        assert(token.wf());
        match token {
            Token::EOF => {
                return flush(stack, out);
            },
            Token::Num(_) => {
                out.push(token);
            },
            Token::Paren(c) => {
                if c == '(' {
                    stack.push(token);
                } else if !pop_group(&mut stack, &mut out) {
                    return Err(SyntaxError::UnmatchedParenthesis);
                }
            },
            Token::Op(op) => {
                pop_operators(&mut stack, &mut out, op);
                stack.push(token);
            },
        }
        i = i + 1;
    }
    flush(stack, out)
}

} // verus!
