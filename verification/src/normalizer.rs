//! Checking how the tokens follow each other, and settling what each sign means.
//!
//! `+` and `-` are written both between two operands and in front of one. The
//! tokens are taken one by one; each is accepted onto the end of the tokens
//! accepted so far, or refused. A run of signs is merged into one sign as it
//! comes in, and when the operand after it arrives, the token before the sign
//! decides: after an operand the sign is an operator and stays, anywhere else
//! it belongs to the number and is folded into it.

use crate::error::SyntaxError;
use crate::number::Number;
use crate::token::all_wf;
use crate::token::Operator;
use crate::token::Token;
use vstd::prelude::*;

verus! {

/// Whether the accepted tokens end with an operand: a number or a closing
/// parenthesis.
pub open spec fn ends_operand(out: Seq<Token>) -> bool {
    out.len() > 0 && (out.last() is Num || out.last() == Token::Paren(')'))
}

/// Whether the accepted tokens end with a sign that belongs to the operand
/// after it.
pub open spec fn ends_unary_sign(out: Seq<Token>) -> bool {
    &&& out.len() > 0
    &&& out.last() matches Token::Op(op)
    &&& op.rank() == 1
    &&& !ends_operand(out.drop_last())
}

/// The number `n` under the sign `op`.
pub open spec fn signed(op: Operator, n: Number) -> Number {
    if op == Operator::Sub {
        n.negated()
    } else {
        n
    }
}

/// The one sign that two signs in a row amount to.
pub open spec fn merged(first: Operator, second: Operator) -> Operator {
    if first == second {
        Operator::Add
    } else {
        Operator::Sub
    }
}

/// The accepted tokens after the number `n`, or why it cannot stand there.
pub open spec fn with_number(out: Seq<Token>, n: Number) -> Result<Seq<Token>, SyntaxError> {
    if out.len() > 0 && out.last() is Num {
        Err(SyntaxError::DuplicateOperand(out.last()->Num_0, n))
    } else if out.len() > 0 && out.last() == Token::Paren(')') {
        Err(SyntaxError::MissingOperator(n))
    } else if ends_unary_sign(out) {
        Ok(out.drop_last().push(Token::Num(signed(out.last()->Op_0, n))))
    } else {
        Ok(out.push(Token::Num(n)))
    }
}

/// The accepted tokens after the operator `op`, or why it cannot stand there.
pub open spec fn with_operator(out: Seq<Token>, op: Operator) -> Result<Seq<Token>, SyntaxError> {
    if out.len() == 0 {
        if op.rank() > 1 {
            Err(SyntaxError::LeadingOperatorNotSign(op))
        } else {
            Ok(out.push(Token::Op(op)))
        }
    } else {
        match out.last() {
            Token::Op(prev) => if prev.rank() == 1 && op.rank() == 1 {
                Ok(out.drop_last().push(Token::Op(merged(prev, op))))
            } else if prev.rank() > 1 && op.rank() == 1 {
                Ok(out.push(Token::Op(op)))
            } else {
                Err(SyntaxError::UnexpectedOperator(prev, op))
            },
            Token::Paren(c) => if c == '(' && op.rank() > 1 {
                Err(SyntaxError::UnexpectedOperatorAfterOpenParen(op))
            } else {
                Ok(out.push(Token::Op(op)))
            },
            _ => Ok(out.push(Token::Op(op))),
        }
    }
}

/// The number of open parentheses after the parenthesis `c`, or `None` where
/// `c` closes and none is open.
pub open spec fn with_paren(depth: nat, c: char) -> Option<nat> {
    if c == '(' {
        Some(depth + 1)
    } else if depth == 0 {
        None
    } else {
        Some((depth - 1) as nat)
    }
}

/// What becomes of the accepted tokens `out`, with `depth` parentheses open,
/// when the tokens from index `i` on are taken. The first `EOF` ends it.
pub open spec fn normalized_from(tokens: Seq<Token>, i: int, out: Seq<Token>, depth: nat) -> Result<
    Seq<Token>,
    SyntaxError,
>
    decreases tokens.len() - i,
{
    if i < 0 || i >= tokens.len() {
        closed(out, depth)
    } else {
        match tokens[i] {
            Token::EOF => closed(out, depth),
            Token::Num(n) => match with_number(out, n) {
                Ok(next) => normalized_from(tokens, i + 1, next, depth),
                Err(e) => Err(e),
            },
            Token::Op(op) => match with_operator(out, op) {
                Ok(next) => normalized_from(tokens, i + 1, next, depth),
                Err(e) => Err(e),
            },
            Token::Paren(c) => match with_paren(depth, c) {
                Some(d) => normalized_from(tokens, i + 1, out.push(tokens[i]), d),
                None => Err(SyntaxError::UnmatchedParenthesis),
            },
        }
    }
}

/// The accepted tokens at the end: all of them, unless a parenthesis is still
/// open.
pub open spec fn closed(out: Seq<Token>, depth: nat) -> Result<Seq<Token>, SyntaxError> {
    if depth > 0 {
        Err(SyntaxError::UnmatchedParenthesis)
    } else {
        Ok(out)
    }
}

/// The normalised form of a token sequence: numbers, binary operators and
/// parentheses, every sign settled; or the first error.
pub open spec fn normalized(tokens: Seq<Token>) -> Result<Seq<Token>, SyntaxError> {
    if tokens.len() == 0 || tokens.last() != Token::EOF {
        Err(SyntaxError::MissingTerminator)
    } else {
        normalized_from(tokens, 0, Seq::empty(), 0)
    }
}

/// Whether the tokens end with an operand, computed.
fn operand_at_end(out: &Vec<Token>, len: usize) -> (b: bool)
    requires
        len <= out.len(),
    ensures
        b == ends_operand(out@.take(len as int)),
{
    if len == 0 {
        false
    } else {
        match out[len - 1] {
            Token::Num(_) => true,
            Token::Paren(c) => c == ')',
            _ => false,
        }
    }
}

/// Accepts a number onto the end of `out`, where it can stand there.
fn push_number(out: &mut Vec<Token>, n: Number) -> (r: Result<(), SyntaxError>)
    requires
        all_wf(old(out)@),
        n.wf(),
    ensures
        match r {
            Ok(_) => with_number(old(out)@, n) == Ok::<_, SyntaxError>(final(out)@),
            Err(e) => with_number(old(out)@, n) == Err::<Seq<Token>, _>(e) && e.wf(),
        },
        all_wf(final(out)@),
{
    let len = out.len();
    if len == 0 {
        out.push(Token::Num(n));
        return Ok(());
    }
    assert(out@.take(len - 1) == out@.drop_last());
    assert(out@[len - 1].wf());
    match out[len - 1] {
        Token::Num(prev) => Err(SyntaxError::DuplicateOperand(prev, n)),
        Token::Paren(c) => {
            if c == ')' {
                Err(SyntaxError::MissingOperator(n))
            } else {
                out.push(Token::Num(n));
                Ok(())
            }
        },
        Token::Op(op) => {
            if op.priority() == 1 && !operand_at_end(out, len - 1) {
                let value = match op {
                    Operator::Sub => n.negate(),
                    _ => n,
                };
                out.pop();
                out.push(Token::Num(value));
            } else {
                out.push(Token::Num(n));
            }
            Ok(())
        },
        Token::EOF => {
            out.push(Token::Num(n));
            Ok(())
        },
    }
}

/// Accepts an operator onto the end of `out`, where it can stand there.
fn push_operator(out: &mut Vec<Token>, op: Operator) -> (r: Result<(), SyntaxError>)
    requires
        all_wf(old(out)@),
    ensures
        match r {
            Ok(_) => with_operator(old(out)@, op) == Ok::<_, SyntaxError>(final(out)@),
            Err(e) => with_operator(old(out)@, op) == Err::<Seq<Token>, _>(e) && e.wf(),
        },
        all_wf(final(out)@),
{
    let len = out.len();
    if len == 0 {
        if op.priority() > 1 {
            return Err(SyntaxError::LeadingOperatorNotSign(op));
        }
        out.push(Token::Op(op));
        return Ok(());
    }
    match out[len - 1] {
        Token::Op(prev) => {
            if prev.priority() == 1 && op.priority() == 1 {
                let sign = if prev == op {
                    Operator::Add
                } else {
                    Operator::Sub
                };
                out.pop();
                out.push(Token::Op(sign));
                Ok(())
            } else if prev.priority() > 1 && op.priority() == 1 {
                out.push(Token::Op(op));
                Ok(())
            } else {
                Err(SyntaxError::UnexpectedOperator(prev, op))
            }
        },
        Token::Paren(c) => {
            if c == '(' && op.priority() > 1 {
                Err(SyntaxError::UnexpectedOperatorAfterOpenParen(op))
            } else {
                out.push(Token::Op(op));
                Ok(())
            }
        },
        _ => {
            out.push(Token::Op(op));
            Ok(())
        },
    }
}

/// Ends the check: the accepted tokens, unless a parenthesis is still open.
fn close(out: Vec<Token>, depth: usize) -> (r: Result<Vec<Token>, SyntaxError>)
    ensures
        match r {
            Ok(v) => closed(out@, depth as nat) == Ok::<_, SyntaxError>(v@) && v@ == out@,
            Err(e) => closed(out@, depth as nat) == Err::<Seq<Token>, _>(e) && e.wf(),
        },
{
    if depth > 0 {
        Err(SyntaxError::UnmatchedParenthesis)
    } else {
        Ok(out)
    }
}

/// Checks a token sequence and settles its signs.
///
/// The tokens must end with `EOF`; what follows the first `EOF` is not read.
/// The result holds numbers, operators and parentheses, in the order in which
/// they came, with every sign that stood in front of a number folded into that
/// number and every run of signs merged into one.
pub fn basic_check(tokens: Vec<Token>) -> (r: Result<Vec<Token>, SyntaxError>)
    requires
        all_wf(tokens@),
    ensures
        match r {
            Ok(v) => normalized(tokens@) == Ok::<_, SyntaxError>(v@) && all_wf(v@),
            Err(e) => normalized(tokens@) == Err::<Seq<Token>, _>(e) && e.wf(),
        },
{
    let n = tokens.len();
    if n == 0 {
        return Err(SyntaxError::MissingTerminator);
    }
    match tokens[n - 1] {
        Token::EOF => {},
        _ => {
            return Err(SyntaxError::MissingTerminator);
        },
    }
    let mut out: Vec<Token> = Vec::new();
    let mut depth: usize = 0;
    let mut i: usize = 0;
    while i < n
        invariant
            i <= n,
            n == tokens.len(),
            depth <= i,
            all_wf(tokens@),
            all_wf(out@),
            normalized_from(tokens@, i as int, out@, depth as nat) == normalized(tokens@),
        decreases n - i,
    {
        let token = tokens[i];
        assert(token.wf());
        match token {
            Token::EOF => {
                return close(out, depth);
            },
            Token::Num(number) => {
                match push_number(&mut out, number) {
                    Ok(_) => {},
                    Err(e) => {
                        return Err(e);
                    },
                }
            },
            Token::Op(op) => {
                match push_operator(&mut out, op) {
                    Ok(_) => {},
                    Err(e) => {
                        return Err(e);
                    },
                }
            },
            Token::Paren(c) => {
                if c == '(' {
                    depth = depth + 1;
                } else if depth == 0 {
                    return Err(SyntaxError::UnmatchedParenthesis);
                } else {
                    depth = depth - 1;
                }
                out.push(token);
            },
        }
        i = i + 1;
    }
    close(out, depth)
}

} // verus!
