//! How three operands group under two operators.

use crate::ast::Ast;
use crate::ast::Node;
use crate::builder::built;
use crate::builder::built_from;
use crate::builder::with_token;
use crate::error::CalcError;
use crate::error::StructuralError;
use crate::error::SyntaxError;
use crate::normalizer::normalized;
use crate::normalizer::normalized_from;
use crate::normalizer::with_number;
use crate::normalizer::with_operator;
use crate::number::Number;
use crate::parser::parsed_tokens;
use crate::postfix::flushed;
use crate::postfix::pop_yielding;
use crate::postfix::postfix;
use crate::postfix::postfix_from;
use crate::postfix::yields_to;
use crate::token::Operator;
use crate::token::Token;
use vstd::prelude::*;

verus! {

/// The tree `(a first b) second c`.
pub open spec fn grouped_left(a: Number, first: Operator, b: Number, second: Operator, c: Number) -> Ast {
    Ast(Node::binary(second, Node::binary(first, Node::Num(a), Node::Num(b)), Node::Num(c)))
}

/// The tree `a first (b second c)`.
pub open spec fn grouped_right(a: Number, first: Operator, b: Number, second: Operator, c: Number) -> Ast {
    Ast(Node::binary(first, Node::Num(a), Node::binary(second, Node::Num(b), Node::Num(c))))
}

/// Three numbers with two operators between them pass the check as they are.
proof fn lemma_three_operands_checked(a: Number, first: Operator, b: Number, second: Operator, c: Number)
    ensures
        normalized(
            seq![
                Token::Num(a),
                Token::Op(first),
                Token::Num(b),
                Token::Op(second),
                Token::Num(c),
                Token::EOF,
            ],
        ) == Ok::<_, SyntaxError>(
            seq![Token::Num(a), Token::Op(first), Token::Num(b), Token::Op(second), Token::Num(c)],
        ),
{
    let tokens = seq![
        Token::Num(a),
        Token::Op(first),
        Token::Num(b),
        Token::Op(second),
        Token::Num(c),
        Token::EOF,
    ];
    let e = Seq::<Token>::empty();
    let s1 = seq![Token::Num(a)];
    let s2 = seq![Token::Num(a), Token::Op(first)];
    let s3 = seq![Token::Num(a), Token::Op(first), Token::Num(b)];
    let s4 = seq![Token::Num(a), Token::Op(first), Token::Num(b), Token::Op(second)];
    let s5 = seq![Token::Num(a), Token::Op(first), Token::Num(b), Token::Op(second), Token::Num(c)];
    assert(e.push(Token::Num(a)) == s1);
    assert(s1.push(Token::Op(first)) == s2);
    assert(s2.push(Token::Num(b)) == s3);
    assert(s3.push(Token::Op(second)) == s4);
    assert(s4.push(Token::Num(c)) == s5);
    assert(s2.drop_last() == s1);
    assert(s4.drop_last() == s3);
    assert(with_number(e, a) == Ok::<_, SyntaxError>(s1));
    assert(with_operator(s1, first) == Ok::<_, SyntaxError>(s2));
    assert(with_number(s2, b) == Ok::<_, SyntaxError>(s3));
    assert(with_operator(s3, second) == Ok::<_, SyntaxError>(s4));
    assert(with_number(s4, c) == Ok::<_, SyntaxError>(s5));
    assert(normalized_from(tokens, 5, s5, 0) == Ok::<_, SyntaxError>(s5));
    assert(normalized_from(tokens, 4, s4, 0) == Ok::<_, SyntaxError>(s5));
    assert(normalized_from(tokens, 3, s3, 0) == Ok::<_, SyntaxError>(s5));
    assert(normalized_from(tokens, 2, s2, 0) == Ok::<_, SyntaxError>(s5));
    assert(normalized_from(tokens, 1, s1, 0) == Ok::<_, SyntaxError>(s5));
    assert(normalized_from(tokens, 0, e, 0) == Ok::<_, SyntaxError>(s5));
}

/// Three numbers in postfix form with the operators `first` and `second`,
/// `first` before the third number, build the tree that groups to the left.
proof fn lemma_built_left(a: Number, first: Operator, b: Number, second: Operator, c: Number)
    ensures
        built(
            seq![Token::Num(a), Token::Num(b), Token::Op(first), Token::Num(c), Token::Op(second)],
        ) == Ok::<_, StructuralError>(grouped_left(a, first, b, second, c)),
{
    let tokens = seq![
        Token::Num(a),
        Token::Num(b),
        Token::Op(first),
        Token::Num(c),
        Token::Op(second),
    ];
    let e = Seq::<Node>::empty();
    let ab = Node::binary(first, Node::Num(a), Node::Num(b));
    let s1 = seq![Node::Num(a)];
    let s2 = seq![Node::Num(a), Node::Num(b)];
    let s3 = seq![ab];
    let s4 = seq![ab, Node::Num(c)];
    let s5 = seq![Node::binary(second, ab, Node::Num(c))];
    assert(e.push(Node::Num(a)) == s1);
    assert(s1.push(Node::Num(b)) == s2);
    assert(s2.take(0).push(ab) == s3);
    assert(s3.push(Node::Num(c)) == s4);
    assert(s4.take(0).push(Node::binary(second, ab, Node::Num(c))) == s5);
    assert(with_token(e, tokens[0]) == Ok::<_, StructuralError>(s1));
    assert(with_token(s1, tokens[1]) == Ok::<_, StructuralError>(s2));
    assert(with_token(s2, tokens[2]) == Ok::<_, StructuralError>(s3));
    assert(with_token(s3, tokens[3]) == Ok::<_, StructuralError>(s4));
    assert(with_token(s4, tokens[4]) == Ok::<_, StructuralError>(s5));
    let r = Ok::<_, StructuralError>(grouped_left(a, first, b, second, c));
    assert(built_from(tokens, 5, s5) == r);
    assert(built_from(tokens, 4, s4) == r);
    assert(built_from(tokens, 3, s3) == r);
    assert(built_from(tokens, 2, s2) == r);
    assert(built_from(tokens, 1, s1) == r);
    assert(built_from(tokens, 0, e) == r);
}

/// Three numbers in postfix form with both operators after them, `second`
/// before `first`, build the tree that groups to the right.
proof fn lemma_built_right(a: Number, first: Operator, b: Number, second: Operator, c: Number)
    ensures
        built(
            seq![Token::Num(a), Token::Num(b), Token::Num(c), Token::Op(second), Token::Op(first)],
        ) == Ok::<_, StructuralError>(grouped_right(a, first, b, second, c)),
{
    let tokens = seq![
        Token::Num(a),
        Token::Num(b),
        Token::Num(c),
        Token::Op(second),
        Token::Op(first),
    ];
    let e = Seq::<Node>::empty();
    let bc = Node::binary(second, Node::Num(b), Node::Num(c));
    let s1 = seq![Node::Num(a)];
    let s2 = seq![Node::Num(a), Node::Num(b)];
    let s3 = seq![Node::Num(a), Node::Num(b), Node::Num(c)];
    let s4 = seq![Node::Num(a), bc];
    let s5 = seq![Node::binary(first, Node::Num(a), bc)];
    assert(e.push(Node::Num(a)) == s1);
    assert(s1.push(Node::Num(b)) == s2);
    assert(s2.push(Node::Num(c)) == s3);
    assert(s3.take(1).push(bc) == s4);
    assert(s4.take(0).push(Node::binary(first, Node::Num(a), bc)) == s5);
    assert(with_token(e, tokens[0]) == Ok::<_, StructuralError>(s1));
    assert(with_token(s1, tokens[1]) == Ok::<_, StructuralError>(s2));
    assert(with_token(s2, tokens[2]) == Ok::<_, StructuralError>(s3));
    assert(with_token(s3, tokens[3]) == Ok::<_, StructuralError>(s4));
    assert(with_token(s4, tokens[4]) == Ok::<_, StructuralError>(s5));
    let r = Ok::<_, StructuralError>(grouped_right(a, first, b, second, c));
    assert(built_from(tokens, 5, s5) == r);
    assert(built_from(tokens, 4, s4) == r);
    assert(built_from(tokens, 3, s3) == r);
    assert(built_from(tokens, 2, s2) == r);
    assert(built_from(tokens, 1, s1) == r);
    assert(built_from(tokens, 0, e) == r);
}

/// The postfix form of three numbers with two operators between them: the
/// first operator comes before the third number exactly if it yields to the
/// second.
proof fn lemma_three_operands_ordered(a: Number, first: Operator, b: Number, second: Operator, c: Number)
    ensures
        postfix(
            seq![Token::Num(a), Token::Op(first), Token::Num(b), Token::Op(second), Token::Num(c)],
        ) == Ok::<_, SyntaxError>(
            if yields_to(first, second) {
                seq![
                    Token::Num(a),
                    Token::Num(b),
                    Token::Op(first),
                    Token::Num(c),
                    Token::Op(second),
                ]
            } else {
                seq![
                    Token::Num(a),
                    Token::Num(b),
                    Token::Num(c),
                    Token::Op(second),
                    Token::Op(first),
                ]
            },
        ),
{
    let tokens = seq![
        Token::Num(a),
        Token::Op(first),
        Token::Num(b),
        Token::Op(second),
        Token::Num(c),
    ];
    let e = Seq::<Token>::empty();
    let o1 = seq![Token::Num(a)];
    let o2 = seq![Token::Num(a), Token::Num(b)];
    let k1 = seq![Token::Op(first)];
    assert(e.push(tokens[0]) == o1);
    assert(pop_yielding(e, o1, first) == (e, o1));
    assert(e.push(tokens[1]) == k1);
    assert(o1.push(tokens[2]) == o2);
    assert(k1.drop_last() == e);
    if yields_to(first, second) {
        let o3 = seq![Token::Num(a), Token::Num(b), Token::Op(first)];
        let o4 = seq![Token::Num(a), Token::Num(b), Token::Op(first), Token::Num(c)];
        let o5 = seq![
            Token::Num(a),
            Token::Num(b),
            Token::Op(first),
            Token::Num(c),
            Token::Op(second),
        ];
        let k2 = seq![Token::Op(second)];
        assert(o2.push(k1.last()) == o3);
        assert(pop_yielding(e, o3, second) == (e, o3));
        assert(pop_yielding(k1, o2, second) == (e, o3));
        assert(e.push(tokens[3]) == k2);
        assert(o3.push(tokens[4]) == o4);
        assert(k2.drop_last() == e);
        assert(o4.push(k2.last()) == o5);
        assert(flushed(e, o5) == Ok::<_, SyntaxError>(o5));
        assert(flushed(k2, o4) == Ok::<_, SyntaxError>(o5));
        let r = Ok::<_, SyntaxError>(o5);
        assert(postfix_from(tokens, 5, k2, o4) == r);
        assert(postfix_from(tokens, 4, k2, o3) == r);
        assert(postfix_from(tokens, 3, k1, o2) == r);
        assert(postfix_from(tokens, 2, k1, o1) == r);
        assert(postfix_from(tokens, 1, e, o1) == r);
        assert(postfix_from(tokens, 0, e, e) == r);
    } else {
        let o3 = seq![Token::Num(a), Token::Num(b), Token::Num(c)];
        let o4 = seq![Token::Num(a), Token::Num(b), Token::Num(c), Token::Op(second)];
        let o5 = seq![
            Token::Num(a),
            Token::Num(b),
            Token::Num(c),
            Token::Op(second),
            Token::Op(first),
        ];
        let k2 = seq![Token::Op(first), Token::Op(second)];
        assert(pop_yielding(k1, o2, second) == (k1, o2));
        assert(k1.push(tokens[3]) == k2);
        assert(o2.push(tokens[4]) == o3);
        assert(k2.drop_last() == k1);
        assert(o3.push(k2.last()) == o4);
        assert(o4.push(k1.last()) == o5);
        assert(flushed(e, o5) == Ok::<_, SyntaxError>(o5));
        assert(flushed(k1, o4) == Ok::<_, SyntaxError>(o5));
        assert(flushed(k2, o3) == Ok::<_, SyntaxError>(o5));
        let r = Ok::<_, SyntaxError>(o5);
        assert(postfix_from(tokens, 5, k2, o3) == r);
        assert(postfix_from(tokens, 4, k2, o2) == r);
        assert(postfix_from(tokens, 3, k1, o2) == r);
        assert(postfix_from(tokens, 2, k1, o1) == r);
        assert(postfix_from(tokens, 1, e, o1) == r);
        assert(postfix_from(tokens, 0, e, e) == r);
    }
}

/// Three numbers with two operators between them group to the left where the
/// first operator yields to the second, that is where it binds more tightly,
/// or as tightly and is not `^`; otherwise they group to the right.
///
/// So `a - b - c` is `(a - b) - c`, `a ^ b ^ c` is `a ^ (b ^ c)`, and
/// `a + b * c` is `a + (b * c)`.
pub proof fn theorem_grouping(a: Number, first: Operator, b: Number, second: Operator, c: Number)
    ensures
        parsed_tokens(
            seq![
                Token::Num(a),
                Token::Op(first),
                Token::Num(b),
                Token::Op(second),
                Token::Num(c),
                Token::EOF,
            ],
        ) == Ok::<_, CalcError>(
            if yields_to(first, second) {
                grouped_left(a, first, b, second, c)
            } else {
                grouped_right(a, first, b, second, c)
            },
        ),
{
    lemma_three_operands_checked(a, first, b, second, c);
    lemma_three_operands_ordered(a, first, b, second, c);
    lemma_built_left(a, first, b, second, c);
    lemma_built_right(a, first, b, second, c);
}

} // verus!
