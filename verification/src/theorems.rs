//! What holds of every expression.

use crate::ast::Ast;
use crate::ast::Node;
use crate::builder::built;
use crate::builder::built_from;
use crate::error::CalcError;
use crate::error::StructuralError;
use crate::evaluated;
use crate::normalizer::closed;
use crate::normalizer::ends_operand;
use crate::normalizer::ends_unary_sign;
use crate::normalizer::merged;
use crate::normalizer::normalized;
use crate::normalizer::signed;
use crate::normalizer::with_number;
use crate::normalizer::with_operator;
use crate::normalizer::normalized_from;
use crate::number::numeral_value;
use crate::number::Number;
use crate::parser::parsed_tokens;
use crate::postfix::postfix;
use crate::postfix::postfix_from;
use crate::token::Operator;
use crate::token::Token;
use crate::tokenizer::in_numeral;
use crate::tokenizer::is_digit;
use crate::tokenizer::is_whitespace;
use crate::tokenizer::lexed;
use crate::tokenizer::lexed_from;
use crate::tokenizer::numeral_end;
use crate::tokenizer::points;
use crate::tokenizer::scan;
use crate::tokenizer::skip_whitespace;
use crate::tokenizer::Scan;
use vstd::prelude::*;

verus! {

/// Whether the characters are a numeral: digits with at most one decimal
/// point among them, a digit first.
pub open spec fn is_numeral(run: Seq<char>) -> bool {
    &&& run.len() > 0
    &&& is_digit(run[0])
    &&& forall|i: int| 0 <= i < run.len() ==> in_numeral(#[trigger] run[i])
    &&& points(run) <= 1
}

/// Whitespace is passed over to the end where nothing else follows.
proof fn lemma_skip_all_whitespace(text: Seq<char>, from: int)
    requires
        0 <= from <= text.len(),
        forall|i: int| from <= i < text.len() ==> is_whitespace(#[trigger] text[i]),
    ensures
        skip_whitespace(text, from) == text.len(),
    decreases text.len() - from,
{
    if from < text.len() {
        lemma_skip_all_whitespace(text, from + 1);
    }
}

/// A numeral goes on as long as digits and points follow each other.
proof fn lemma_numeral_end_of_run(text: Seq<char>, from: int, to: int)
    requires
        0 <= from <= to <= text.len(),
        forall|i: int| from <= i < to ==> in_numeral(#[trigger] text[i]),
        to < text.len() ==> !in_numeral(text[to]),
    ensures
        numeral_end(text, from) == to,
    decreases to - from,
{
    if from < to {
        lemma_numeral_end_of_run(text, from + 1, to);
    }
}

/// A token sequence of one number denotes that number.
proof fn lemma_single_number(v: Number)
    ensures
        parsed_tokens(seq![Token::Num(v), Token::EOF]) == Ok::<_, CalcError>(Ast(Node::Num(v))),
{
    let tokens = seq![Token::Num(v), Token::EOF];
    let checked = seq![Token::Num(v)];
    assert(normalized(tokens) == Ok::<_, crate::error::SyntaxError>(checked)) by {
        reveal_with_fuel(normalized_from, 3);
        assert(Seq::<Token>::empty().push(Token::Num(v)) == checked);
    }
    assert(postfix(checked) == Ok::<_, crate::error::SyntaxError>(checked)) by {
        reveal_with_fuel(postfix_from, 3);
        assert(Seq::<Token>::empty().push(checked[0]) == checked);
    }
    assert(built(checked) == Ok::<_, StructuralError>(Ast(Node::Num(v)))) by {
        reveal_with_fuel(built_from, 3);
        assert(Seq::<Node>::empty().push(Node::Num(v))[0] == Node::Num(v));
    }
}

/// A text of one numeral scans into its number and `EOF`.
proof fn lemma_lexed_numeral(text: Seq<char>, from: int, v: Number)
    requires
        0 <= from < text.len(),
        is_numeral(text.subrange(from, text.len() as int)),
        numeral_value(text.subrange(from, text.len() as int)) == Some(v),
    ensures
        lexed_from(text, from) == (seq![Token::Num(v), Token::EOF], None::<crate::error::LexError>),
{
    let len = text.len() as int;
    let run = text.subrange(from, len);
    assert(run[0] == text[from]);
    assert forall|i: int| from <= i < len implies in_numeral(#[trigger] text[i]) by {
        assert(text[i] == run[i - from]);
    }
    lemma_numeral_end_of_run(text, from, len);
    assert(skip_whitespace(text, from) == from);
    assert(scan(text, from) == Scan::Token(Token::Num(v), len));
    assert(skip_whitespace(text, len) == len);
    assert(scan(text, len) == Scan::End);
    assert(lexed_from(text, len) == (seq![Token::EOF], None::<crate::error::LexError>));
    assert(seq![Token::Num(v)] + seq![Token::EOF] == seq![Token::Num(v), Token::EOF]);
}

/// A numeral alone evaluates to the number that it denotes.
pub proof fn theorem_numeral_evaluates_to_itself(run: Seq<char>, v: Number)
    requires
        is_numeral(run),
        numeral_value(run) == Some(v),
    ensures
        evaluated(run) == Ok::<_, CalcError>(v),
{
    assert(run.subrange(0, run.len() as int) == run);
    lemma_lexed_numeral(run, 0, v);
    lemma_single_number(v);
}

/// A token sequence of one sign and one number denotes the number under the
/// sign.
proof fn lemma_signed_number(sign: Operator, v: Number)
    requires
        sign.rank() == 1,
    ensures
        parsed_tokens(seq![Token::Op(sign), Token::Num(v), Token::EOF]) == Ok::<_, CalcError>(
            Ast(Node::Num(signed(sign, v))),
        ),
{
    let tokens = seq![Token::Op(sign), Token::Num(v), Token::EOF];
    let w = signed(sign, v);
    let checked = seq![Token::Num(w)];
    assert(normalized(tokens) == Ok::<_, crate::error::SyntaxError>(checked)) by {
        reveal_with_fuel(normalized_from, 4);
        let first = Seq::<Token>::empty().push(Token::Op(sign));
        assert(with_operator(Seq::<Token>::empty(), sign) == Ok::<_, crate::error::SyntaxError>(
            first,
        ));
        assert(first.drop_last() == Seq::<Token>::empty());
        assert(ends_unary_sign(first));
        assert(first.drop_last().push(Token::Num(w)) == checked);
        assert(with_number(first, v) == Ok::<_, crate::error::SyntaxError>(checked));
    }
    assert(postfix(checked) == Ok::<_, crate::error::SyntaxError>(checked)) by {
        reveal_with_fuel(postfix_from, 3);
        assert(Seq::<Token>::empty().push(checked[0]) == checked);
    }
    assert(built(checked) == Ok::<_, StructuralError>(Ast(Node::Num(w)))) by {
        reveal_with_fuel(built_from, 3);
        assert(Seq::<Node>::empty().push(Node::Num(w))[0] == Node::Num(w));
    }
}

/// A numeral under a sign evaluates to the number that it denotes, negated
/// under `-` and as it is under `+`.
pub proof fn theorem_signed_numeral_evaluates_to_itself(sign: char, run: Seq<char>, v: Number)
    requires
        sign == '+' || sign == '-',
        is_numeral(run),
        numeral_value(run) == Some(v),
    ensures
        evaluated(seq![sign] + run) == Ok::<_, CalcError>(
            if sign == '-' {
                v.negated()
            } else {
                v
            },
        ),
{
    let text = seq![sign] + run;
    let op = if sign == '-' {
        Operator::Sub
    } else {
        Operator::Add
    };
    assert(text.subrange(1, text.len() as int) == run);
    lemma_lexed_numeral(text, 1, v);
    assert(text[0] == sign);
    assert(skip_whitespace(text, 0) == 0);
    assert(scan(text, 0) == Scan::Token(Token::Op(op), 1));
    assert(seq![Token::Op(op)] + seq![Token::Num(v), Token::EOF] == seq![
        Token::Op(op),
        Token::Num(v),
        Token::EOF,
    ]);
    assert(lexed(text) == Ok::<_, crate::error::LexError>(
        seq![Token::Op(op), Token::Num(v), Token::EOF],
    ));
    lemma_signed_number(op, v);
}

/// `k` signs `-` in a row.
pub open spec fn minus_run(k: nat) -> Seq<Token> {
    Seq::new(k, |i: int| Token::Op(Operator::Sub))
}

/// The one sign that `k` signs `-` in a row amount to: `+` for an even `k`,
/// `-` for an odd one.
pub open spec fn sign_of_run(k: nat) -> Operator {
    if k % 2 == 0 {
        Operator::Add
    } else {
        Operator::Sub
    }
}

/// Whether a sign can be accepted after the tokens `out` as a sign of its own:
/// they do not end with a sign themselves.
pub open spec fn takes_sign(out: Seq<Token>) -> bool {
    out.len() == 0 || !(out.last() matches Token::Op(op) && op.rank() == 1)
}

/// The accepted tokens `out` after a run of `k` signs `-` and the number `b`:
/// after an operand the run is one operator, elsewhere it is folded into `b`.
pub open spec fn after_run(out: Seq<Token>, k: nat, b: Number) -> Seq<Token> {
    if ends_operand(out) {
        out.push(Token::Op(sign_of_run(k))).push(Token::Num(b))
    } else {
        out.push(Token::Num(signed(sign_of_run(k), b)))
    }
}

/// Within a run of signs `-`, after `j` of them the accepted tokens end with
/// the sign that the `j` amount to, and the rest of the run goes the same way.
proof fn lemma_within_run(
    tokens: Seq<Token>,
    i: int,
    k: nat,
    j: nat,
    out: Seq<Token>,
    depth: nat,
    b: Number,
)
    requires
        0 <= i,
        i + k + 1 < tokens.len(),
        forall|m: int| i <= m < i + k ==> tokens[m] == Token::Op(Operator::Sub),
        tokens[i + k] == Token::Num(b),
        tokens[i + k + 1] == Token::EOF,
        1 <= j <= k,
    ensures
        normalized_from(tokens, i + j, out.push(Token::Op(sign_of_run(j))), depth) == closed(
            after_run(out, k, b),
            depth,
        ),
    decreases k - j,
{
    let here = out.push(Token::Op(sign_of_run(j)));
    assert(here.drop_last() == out);
    if j < k {
        let next = (j + 1) as nat;
        assert(tokens[i + j] == Token::Op(Operator::Sub));
        assert(merged(sign_of_run(j), Operator::Sub) == sign_of_run(next));
        assert(with_operator(here, Operator::Sub) == Ok::<_, crate::error::SyntaxError>(
            out.push(Token::Op(sign_of_run(next))),
        ));
        lemma_within_run(tokens, i, k, next, out, depth, b);
    } else {
        assert(with_number(here, b) == Ok::<_, crate::error::SyntaxError>(after_run(out, k, b)));
        assert(normalized_from(tokens, i + k + 1, after_run(out, k, b), depth) == closed(
            after_run(out, k, b),
            depth,
        ));
    }
}

/// A run of `k` signs `-` before a number amounts to one sign, `+` for an even
/// `k` and `-` for an odd one, whatever has been accepted before it, as long as
/// that does not end with a sign too. After an operand the sign stays, as an
/// operator; elsewhere it is folded into the number.
pub proof fn theorem_minus_run_collapses(out: Seq<Token>, depth: nat, k: nat, b: Number)
    requires
        k >= 1,
        takes_sign(out),
    ensures
        normalized_from(minus_run(k) + seq![Token::Num(b), Token::EOF], 0, out, depth) == closed(
            after_run(out, k, b),
            depth,
        ),
{
    let tokens = minus_run(k) + seq![Token::Num(b), Token::EOF];
    assert(tokens[0] == Token::Op(Operator::Sub));
    assert(with_operator(out, Operator::Sub) == Ok::<_, crate::error::SyntaxError>(
        out.push(Token::Op(Operator::Sub)),
    ));
    lemma_within_run(tokens, 0, k, 1, out, depth, b);
}

/// Between two numbers, a run of `k` signs `-` is the operator `+` for an even
/// `k` and the operator `-` for an odd one.
pub proof fn theorem_minus_run_between_numbers(a: Number, b: Number, k: nat)
    requires
        k >= 1,
    ensures
        normalized(seq![Token::Num(a)] + minus_run(k) + seq![Token::Num(b), Token::EOF]) == Ok::<
            _,
            crate::error::SyntaxError,
        >(seq![Token::Num(a), Token::Op(sign_of_run(k)), Token::Num(b)]),
{
    let tokens = seq![Token::Num(a)] + minus_run(k) + seq![Token::Num(b), Token::EOF];
    let out = seq![Token::Num(a)];
    assert(tokens.last() == Token::EOF);
    assert(tokens[0] == Token::Num(a));
    assert(with_number(Seq::<Token>::empty(), a) == Ok::<_, crate::error::SyntaxError>(out)) by {
        assert(Seq::<Token>::empty().push(Token::Num(a)) == out);
    }
    assert(tokens[1] == Token::Op(Operator::Sub));
    assert(with_operator(out, Operator::Sub) == Ok::<_, crate::error::SyntaxError>(
        out.push(Token::Op(Operator::Sub)),
    ));
    lemma_within_run(tokens, 1, k, 1, out, 0, b);
    assert(after_run(out, k, b) == seq![
        Token::Num(a),
        Token::Op(sign_of_run(k)),
        Token::Num(b),
    ]);
    assert(normalized_from(tokens, 1, out, 0) == normalized_from(
        tokens,
        2,
        out.push(Token::Op(Operator::Sub)),
        0,
    ));
    assert(normalized_from(tokens, 0, Seq::<Token>::empty(), 0) == normalized_from(
        tokens,
        1,
        out,
        0,
    ));
}

/// At the start, a run of `k` signs `-` before a number leaves the number as
/// it is for an even `k` and negates it for an odd one.
pub proof fn theorem_minus_run_before_number(b: Number, k: nat)
    requires
        k >= 1,
    ensures
        normalized(minus_run(k) + seq![Token::Num(b), Token::EOF]) == Ok::<
            _,
            crate::error::SyntaxError,
        >(
            seq![
                Token::Num(
                    if k % 2 == 0 {
                        b
                    } else {
                        b.negated()
                    },
                ),
            ],
        ),
{
    let tokens = minus_run(k) + seq![Token::Num(b), Token::EOF];
    assert(tokens.last() == Token::EOF);
    theorem_minus_run_collapses(Seq::<Token>::empty(), 0, k, b);
    assert(after_run(Seq::<Token>::empty(), k, b) == seq![
        Token::Num(signed(sign_of_run(k), b)),
    ]);
}

/// A text without anything but whitespace, the empty text among them, is a
/// malformed expression.
pub proof fn theorem_blank_is_malformed(text: Seq<char>)
    requires
        forall|i: int| 0 <= i < text.len() ==> is_whitespace(#[trigger] text[i]),
    ensures
        evaluated(text) == Err::<Number, _>(
            CalcError::Structure(StructuralError::MalformedExpression),
        ),
{
    lemma_skip_all_whitespace(text, 0);
    assert(scan(text, 0) == Scan::End);
    let tokens = seq![Token::EOF];
    assert(lexed(text) == Ok::<_, crate::error::LexError>(tokens));
    assert(normalized(tokens) == Ok::<_, crate::error::SyntaxError>(Seq::<Token>::empty()));
    assert(postfix(Seq::<Token>::empty()) == Ok::<_, crate::error::SyntaxError>(
        Seq::<Token>::empty(),
    ));
    assert(built(Seq::<Token>::empty()) == Err::<Ast, _>(StructuralError::MalformedExpression));
}

/// The result depends on the characters of the text and on nothing else: the
/// same text has the same result, whenever and wherever it is evaluated.
pub proof fn theorem_same_text_same_result(first: Seq<char>, second: Seq<char>)
    requires
        first =~= second,
    ensures
        evaluated(first) == evaluated(second),
{
}

} // verus!
