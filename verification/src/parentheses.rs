//! Parentheses around a whole expression change nothing.
//!
//! An expression that parses still parses when it is put in parentheses, to
//! any depth, and it parses to the same tree. Each stage is followed with the
//! opening parenthesis in front: the scan gives the same tokens between the
//! two parentheses, the check accepts the same tokens one level deeper, and
//! the ordering does the same work above the parenthesis that waits at the
//! bottom of its stack.

use crate::error::LexError;
use crate::error::SyntaxError;
use crate::evaluated;
use crate::normalizer::closed;
use crate::normalizer::ends_operand;
use crate::normalizer::ends_unary_sign;
use crate::normalizer::normalized;
use crate::normalizer::normalized_from;
use crate::normalizer::with_number;
use crate::normalizer::with_operator;
use crate::normalizer::with_paren;
use crate::number::Number;
use crate::parser::parsed;
use crate::parser::parsed_tokens;
use crate::postfix::flushed;
use crate::postfix::pop_to_open;
use crate::postfix::pop_yielding;
use crate::postfix::postfix;
use crate::postfix::postfix_from;
use crate::token::Operator;
use crate::token::Token;
use crate::tokenizer::in_numeral;
use crate::tokenizer::is_digit;
use crate::tokenizer::is_whitespace;
use crate::tokenizer::lemma_numeral_end_bounds;
use crate::tokenizer::lemma_scan_advances;
use crate::tokenizer::lemma_skip_whitespace_bounds;
use crate::tokenizer::lexed;
use crate::tokenizer::lexed_from;
use crate::tokenizer::numeral_end;
use crate::tokenizer::scan;
use crate::tokenizer::skip_whitespace;
use crate::tokenizer::Scan;
use vstd::prelude::*;

verus! {

/// The text in parentheses.
pub open spec fn wrapped(text: Seq<char>) -> Seq<char> {
    seq!['('] + text + seq![')']
}

/// The text in `depth` pairs of parentheses.
pub open spec fn nested(text: Seq<char>, depth: nat) -> Seq<char>
    decreases depth,
{
    if depth == 0 {
        text
    } else {
        wrapped(nested(text, (depth - 1) as nat))
    }
}

/// The tokens, `EOF` at their end, in parentheses.
pub open spec fn wrapped_tokens(tokens: Seq<Token>) -> Seq<Token> {
    seq![Token::Paren('(')] + tokens.drop_last() + seq![Token::Paren(')'), Token::EOF]
}

/// Whether the tokens end with `EOF` and hold no other.
pub open spec fn ends_at_eof(tokens: Seq<Token>) -> bool {
    &&& tokens.len() > 0
    &&& tokens.last() == Token::EOF
    &&& forall|i: int| 0 <= i < tokens.len() - 1 ==> tokens[i] != Token::EOF
}

/// Whether there is no `EOF` among the tokens.
pub open spec fn without_eof(tokens: Seq<Token>) -> bool {
    forall|i: int| 0 <= i < tokens.len() ==> tokens[i] != Token::EOF
}

// The scan

/// In parentheses, whitespace is passed over as it is without.
proof fn lemma_skip_whitespace_wrapped(text: Seq<char>, i: int)
    requires
        0 <= i <= text.len(),
    ensures
        skip_whitespace(wrapped(text), i + 1) == skip_whitespace(text, i) + 1,
    decreases text.len() - i,
{
    let w = wrapped(text);
    if i < text.len() {
        assert(w[i + 1] == text[i]);
        if is_whitespace(text[i]) {
            lemma_skip_whitespace_wrapped(text, i + 1);
        }
    } else {
        assert(w[i + 1] == ')');
    }
}

/// In parentheses, a numeral ends where it ends without.
proof fn lemma_numeral_end_wrapped(text: Seq<char>, i: int)
    requires
        0 <= i <= text.len(),
    ensures
        numeral_end(wrapped(text), i + 1) == numeral_end(text, i) + 1,
    decreases text.len() - i,
{
    let w = wrapped(text);
    if i < text.len() {
        assert(w[i + 1] == text[i]);
        if in_numeral(text[i]) {
            lemma_numeral_end_wrapped(text, i + 1);
        }
    } else {
        assert(w[i + 1] == ')');
    }
}

/// In parentheses, the scan takes the steps that it takes without, one position
/// further on, and finds the closing parenthesis where the text ends.
proof fn lemma_scan_wrapped(text: Seq<char>, i: int)
    requires
        0 <= i <= text.len(),
    ensures
        match scan(text, i) {
            Scan::Token(token, next) => scan(wrapped(text), i + 1) == Scan::Token(token, next + 1),
            Scan::Fail(e) => scan(wrapped(text), i + 1) == Scan::Fail(e),
            Scan::End => scan(wrapped(text), i + 1) == Scan::Token(
                Token::Paren(')'),
                (text.len() + 2) as int,
            ),
        },
{
    let w = wrapped(text);
    lemma_skip_whitespace_wrapped(text, i);
    lemma_skip_whitespace_bounds(text, i);
    let at = skip_whitespace(text, i);
    if at < text.len() {
        assert(w[at + 1] == text[at]);
        if is_digit(text[at]) {
            lemma_numeral_end_wrapped(text, at);
            lemma_numeral_end_bounds(text, at);
            let end = numeral_end(text, at);
            assert(w.subrange(at + 1, end + 1) == text.subrange(at, end));
        }
    } else {
        assert(w[at + 1] == ')');
    }
}

/// The tokens of a scan without error end with `EOF` and hold no other.
proof fn lemma_lexed_ends_at_eof(text: Seq<char>, i: int)
    requires
        0 <= i <= text.len(),
        lexed_from(text, i).1 is None,
    ensures
        ends_at_eof(lexed_from(text, i).0),
    decreases text.len() - i,
{
    lemma_scan_advances(text, i);
    match scan(text, i) {
        Scan::Token(token, next) => {
            lemma_lexed_ends_at_eof(text, next);
            let rest = lexed_from(text, next).0;
            let all = seq![token] + rest;
            assert(all.last() == rest.last());
            assert(token != Token::EOF);
            assert forall|j: int| 0 <= j < all.len() - 1 implies all[j] != Token::EOF by {
                if j > 0 {
                    assert(all[j] == rest[j - 1]);
                }
            }
        },
        _ => {},
    }
}

/// In parentheses, the scan gives the tokens that it gives without, and the
/// closing parenthesis before `EOF`.
proof fn lemma_lexed_wrapped(text: Seq<char>, i: int)
    requires
        0 <= i <= text.len(),
        lexed_from(text, i).1 is None,
    ensures
        lexed_from(wrapped(text), i + 1) == (
            lexed_from(text, i).0.drop_last() + seq![Token::Paren(')'), Token::EOF],
            None::<LexError>,
        ),
    decreases text.len() - i,
{
    let w = wrapped(text);
    lemma_scan_advances(text, i);
    lemma_scan_wrapped(text, i);
    match scan(text, i) {
        Scan::Token(token, next) => {
            lemma_lexed_wrapped(text, next);
            lemma_lexed_ends_at_eof(text, next);
            let rest = lexed_from(text, next).0;
            let tail = seq![Token::Paren(')'), Token::EOF];
            assert(seq![token] + (rest.drop_last() + tail) == (seq![token] + rest).drop_last()
                + tail);
        },
        Scan::End => {
            let end = (text.len() + 2) as int;
            assert(skip_whitespace(w, end) == end);
            assert(scan(w, end) == Scan::End);
            assert(lexed_from(w, end) == (seq![Token::EOF], None::<LexError>));
            assert(seq![Token::Paren(')')] + seq![Token::EOF] == seq![Token::EOF].drop_last()
                + seq![Token::Paren(')'), Token::EOF]);
        },
        Scan::Fail(e) => {},
    }
}

/// A text in parentheses scans into the tokens of the text, in parentheses.
proof fn lemma_lexed_of_wrapped(text: Seq<char>)
    requires
        lexed(text) is Ok,
    ensures
        lexed(wrapped(text)) == Ok::<_, LexError>(wrapped_tokens(lexed(text)->Ok_0)),
        ends_at_eof(lexed(text)->Ok_0),
{
    let w = wrapped(text);
    lemma_lexed_wrapped(text, 0);
    lemma_lexed_ends_at_eof(text, 0);
    assert(w[0] == '(');
    assert(skip_whitespace(w, 0) == 0);
    assert(scan(w, 0) == Scan::Token(Token::Paren('('), 1));
    let inner = lexed_from(text, 0).0.drop_last() + seq![Token::Paren(')'), Token::EOF];
    assert(seq![Token::Paren('(')] + inner == wrapped_tokens(lexed_from(text, 0).0));
}

// The check

/// After an opening parenthesis a number is accepted as it is without.
proof fn lemma_with_number_wrapped(out: Seq<Token>, n: Number)
    requires
        with_number(out, n) is Ok,
    ensures
        with_number(seq![Token::Paren('(')] + out, n) == Ok::<_, SyntaxError>(
            seq![Token::Paren('(')] + with_number(out, n)->Ok_0,
        ),
{
    let open = seq![Token::Paren('(')];
    let deep = open + out;
    if out.len() == 0 {
        assert(deep.last() == Token::Paren('('));
        assert(deep.push(Token::Num(n)) == open + out.push(Token::Num(n)));
    } else {
        assert(deep.last() == out.last());
        assert(deep.drop_last() == open + out.drop_last());
        if out.len() == 1 {
            assert(deep.drop_last().last() == Token::Paren('('));
        } else {
            assert(deep.drop_last().last() == out.drop_last().last());
        }
        assert(ends_operand(deep.drop_last()) == ends_operand(out.drop_last()));
        assert(ends_unary_sign(deep) == ends_unary_sign(out));
        if ends_unary_sign(out) {
            let token = Token::Num(crate::normalizer::signed(out.last()->Op_0, n));
            assert(deep.drop_last().push(token) == open + out.drop_last().push(token));
        } else {
            assert(deep.push(Token::Num(n)) == open + out.push(Token::Num(n)));
        }
    }
}

/// After an opening parenthesis an operator is accepted as it is without.
proof fn lemma_with_operator_wrapped(out: Seq<Token>, op: Operator)
    requires
        with_operator(out, op) is Ok,
    ensures
        with_operator(seq![Token::Paren('(')] + out, op) == Ok::<_, SyntaxError>(
            seq![Token::Paren('(')] + with_operator(out, op)->Ok_0,
        ),
{
    let open = seq![Token::Paren('(')];
    let deep = open + out;
    if out.len() == 0 {
        assert(deep.last() == Token::Paren('('));
        assert(deep.push(Token::Op(op)) == open + out.push(Token::Op(op)));
    } else {
        assert(deep.last() == out.last());
        assert(deep.drop_last() == open + out.drop_last());
        assert(deep.push(Token::Op(op)) == open + out.push(Token::Op(op)));
        match out.last() {
            Token::Op(prev) => {
                let token = Token::Op(crate::normalizer::merged(prev, op));
                assert(deep.drop_last().push(token) == open + out.drop_last().push(token));
            },
            _ => {},
        }
    }
}

/// One level deeper, the check accepts what it accepts at the surface, and
/// closes the level at the end.
proof fn lemma_normalized_wrapped(
    tokens: Seq<Token>,
    i: int,
    out: Seq<Token>,
    depth: nat,
)
    requires
        ends_at_eof(tokens),
        0 <= i < tokens.len(),
        normalized_from(tokens, i, out, depth) is Ok,
    ensures
        normalized_from(
            wrapped_tokens(tokens),
            i + 1,
            seq![Token::Paren('(')] + out,
            depth + 1,
        ) == Ok::<_, SyntaxError>(
            seq![Token::Paren('(')] + normalized_from(tokens, i, out, depth)->Ok_0 + seq![
                Token::Paren(')'),
            ],
        ),
    decreases tokens.len() - i,
{
    let open = seq![Token::Paren('(')];
    let w = wrapped_tokens(tokens);
    let last = tokens.len() - 1;
    if i == last {
        assert(w[i + 1] == Token::Paren(')'));
        assert(w[i + 2] == Token::EOF);
        assert(depth == 0);
        assert(with_paren(1, ')') == Some(0nat));
        let done = (open + out).push(Token::Paren(')'));
        assert(done == open + out + seq![Token::Paren(')')]);
        assert(normalized_from(w, i + 2, done, 0) == closed(done, 0));
        assert(normalized_from(w, i + 1, open + out, 1) == normalized_from(w, i + 2, done, 0));
    } else {
        assert(w[i + 1] == tokens[i]);
        match tokens[i] {
            Token::EOF => {},
            Token::Num(n) => {
                lemma_with_number_wrapped(out, n);
                lemma_normalized_wrapped(tokens, i + 1, with_number(out, n)->Ok_0, depth);
            },
            Token::Op(op) => {
                lemma_with_operator_wrapped(out, op);
                lemma_normalized_wrapped(tokens, i + 1, with_operator(out, op)->Ok_0, depth);
            },
            Token::Paren(c) => {
                let d = with_paren(depth, c)->Some_0;
                assert(with_paren(depth + 1, c) == Some(d + 1));
                assert((open + out).push(tokens[i]) == open + out.push(tokens[i]));
                lemma_normalized_wrapped(tokens, i + 1, out.push(tokens[i]), d);
            },
        }
    }
}

/// The check lets no `EOF` through.
proof fn lemma_normalized_without_eof(tokens: Seq<Token>, i: int, out: Seq<Token>, depth: nat)
    requires
        0 <= i,
        without_eof(out),
        normalized_from(tokens, i, out, depth) is Ok,
    ensures
        without_eof(normalized_from(tokens, i, out, depth)->Ok_0),
    decreases tokens.len() - i,
{
    if i < tokens.len() {
        match tokens[i] {
            Token::EOF => {},
            Token::Num(n) => {
                lemma_normalized_without_eof(tokens, i + 1, with_number(out, n)->Ok_0, depth);
            },
            Token::Op(op) => {
                lemma_normalized_without_eof(tokens, i + 1, with_operator(out, op)->Ok_0, depth);
            },
            Token::Paren(c) => {
                lemma_normalized_without_eof(
                    tokens,
                    i + 1,
                    out.push(tokens[i]),
                    with_paren(depth, c)->Some_0,
                );
            },
        }
    }
}

// The ordering

/// Above an opening parenthesis the operators yield as they do without.
proof fn lemma_pop_yielding_wrapped(stack: Seq<Token>, out: Seq<Token>, op: Operator)
    ensures
        pop_yielding(seq![Token::Paren('(')] + stack, out, op) == (
            seq![Token::Paren('(')] + pop_yielding(stack, out, op).0,
            pop_yielding(stack, out, op).1,
        ),
    decreases stack.len(),
{
    let open = seq![Token::Paren('(')];
    let deep = open + stack;
    if stack.len() == 0 {
        assert(deep.last() == Token::Paren('('));
    } else {
        assert(deep.last() == stack.last());
        assert(deep.drop_last() == open + stack.drop_last());
        lemma_pop_yielding_wrapped(stack.drop_last(), out.push(stack.last()), op);
    }
}

/// Above an opening parenthesis a group is closed as it is without.
proof fn lemma_pop_to_open_wrapped(stack: Seq<Token>, out: Seq<Token>)
    requires
        pop_to_open(stack, out) is Some,
    ensures
        pop_to_open(seq![Token::Paren('(')] + stack, out) == Some(
            (
                seq![Token::Paren('(')] + pop_to_open(stack, out)->Some_0.0,
                pop_to_open(stack, out)->Some_0.1,
            ),
        ),
    decreases stack.len(),
{
    let open = seq![Token::Paren('(')];
    let deep = open + stack;
    assert(deep.last() == stack.last());
    assert(deep.drop_last() == open + stack.drop_last());
    if stack.last() != Token::Paren('(') {
        lemma_pop_to_open_wrapped(stack.drop_last(), out.push(stack.last()));
    }
}

/// What empties the stack at the end is what a closing parenthesis sends out
/// when an opening one waits below.
proof fn lemma_flushed_wrapped(stack: Seq<Token>, out: Seq<Token>)
    requires
        flushed(stack, out) is Ok,
    ensures
        pop_to_open(seq![Token::Paren('(')] + stack, out) == Some(
            (Seq::<Token>::empty(), flushed(stack, out)->Ok_0),
        ),
    decreases stack.len(),
{
    let open = seq![Token::Paren('(')];
    let deep = open + stack;
    if stack.len() == 0 {
        assert(deep.last() == Token::Paren('('));
        assert(deep.drop_last() == Seq::<Token>::empty());
    } else {
        assert(deep.last() == stack.last());
        assert(deep.drop_last() == open + stack.drop_last());
        lemma_flushed_wrapped(stack.drop_last(), out.push(stack.last()));
    }
}

/// In parentheses, the ordering sends out what it sends out without.
proof fn lemma_postfix_wrapped(tokens: Seq<Token>, i: int, stack: Seq<Token>, out: Seq<Token>)
    requires
        without_eof(tokens),
        0 <= i <= tokens.len(),
        postfix_from(tokens, i, stack, out) is Ok,
    ensures
        postfix_from(
            seq![Token::Paren('(')] + tokens + seq![Token::Paren(')')],
            i + 1,
            seq![Token::Paren('(')] + stack,
            out,
        ) == postfix_from(tokens, i, stack, out),
    decreases tokens.len() - i,
{
    let open = seq![Token::Paren('(')];
    let w = open + tokens + seq![Token::Paren(')')];
    if i == tokens.len() {
        assert(w[i + 1] == Token::Paren(')'));
        lemma_flushed_wrapped(stack, out);
        let sent = flushed(stack, out)->Ok_0;
        assert(postfix_from(w, i + 2, Seq::<Token>::empty(), sent) == flushed(
            Seq::<Token>::empty(),
            sent,
        ));
    } else {
        assert(w[i + 1] == tokens[i]);
        match tokens[i] {
            Token::EOF => {},
            Token::Num(_) => {
                lemma_postfix_wrapped(tokens, i + 1, stack, out.push(tokens[i]));
            },
            Token::Paren(c) => {
                if c == '(' {
                    assert((open + stack).push(tokens[i]) == open + stack.push(tokens[i]));
                    lemma_postfix_wrapped(tokens, i + 1, stack.push(tokens[i]), out);
                } else {
                    lemma_pop_to_open_wrapped(stack, out);
                    let (s, o) = pop_to_open(stack, out)->Some_0;
                    lemma_postfix_wrapped(tokens, i + 1, s, o);
                }
            },
            Token::Op(op) => {
                lemma_pop_yielding_wrapped(stack, out, op);
                let (s, o) = pop_yielding(stack, out, op);
                assert((open + s).push(tokens[i]) == open + s.push(tokens[i]));
                lemma_postfix_wrapped(tokens, i + 1, s.push(tokens[i]), o);
            },
        }
    }
}

// All stages

/// Tokens that denote an expression denote the same expression when they are
/// put in parentheses.
pub proof fn theorem_parentheses_around_tokens(tokens: Seq<Token>)
    requires
        ends_at_eof(tokens),
        parsed_tokens(tokens) is Ok,
    ensures
        parsed_tokens(wrapped_tokens(tokens)) == parsed_tokens(tokens),
{
    let open = seq![Token::Paren('(')];
    let w = wrapped_tokens(tokens);
    let checked = normalized(tokens)->Ok_0;
    lemma_normalized_wrapped(tokens, 0, Seq::<Token>::empty(), 0);
    lemma_normalized_without_eof(tokens, 0, Seq::<Token>::empty(), 0);
    assert(w[0] == Token::Paren('('));
    assert(w.last() == Token::EOF);
    assert(with_paren(0, '(') == Some(1nat));
    assert(Seq::<Token>::empty().push(w[0]) == open + Seq::<Token>::empty());
    assert(normalized_from(w, 0, Seq::<Token>::empty(), 0) == normalized_from(
        w,
        1,
        open + Seq::<Token>::empty(),
        1,
    ));
    let deep = open + checked + seq![Token::Paren(')')];
    assert(normalized(w) == Ok::<_, SyntaxError>(deep));
    lemma_postfix_wrapped(checked, 0, Seq::<Token>::empty(), Seq::<Token>::empty());
    assert(deep[0] == Token::Paren('('));
    assert(Seq::<Token>::empty().push(deep[0]) == open + Seq::<Token>::empty());
    assert(postfix_from(deep, 0, Seq::<Token>::empty(), Seq::<Token>::empty()) == postfix_from(
        deep,
        1,
        open + Seq::<Token>::empty(),
        Seq::<Token>::empty(),
    ));
    assert(postfix(deep) == postfix(checked));
}

/// A text that denotes an expression denotes the same expression when it is
/// put in parentheses.
pub proof fn theorem_parentheses_around_text(text: Seq<char>)
    requires
        parsed(text) is Ok,
    ensures
        parsed(wrapped(text)) == parsed(text),
        evaluated(wrapped(text)) == evaluated(text),
{
    lemma_lexed_of_wrapped(text);
    theorem_parentheses_around_tokens(lexed(text)->Ok_0);
}

/// A text that denotes an expression denotes the same expression in any
/// number of pairs of parentheses, and has the same value there.
pub proof fn theorem_nesting(text: Seq<char>, depth: nat)
    requires
        parsed(text) is Ok,
    ensures
        parsed(nested(text, depth)) == parsed(text),
        evaluated(nested(text, depth)) == evaluated(text),
    decreases depth,
{
    if depth > 0 {
        theorem_nesting(text, (depth - 1) as nat);
        theorem_parentheses_around_text(nested(text, (depth - 1) as nat));
    }
}

} // verus!
