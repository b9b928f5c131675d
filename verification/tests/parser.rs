use calc::ast::Ast;
use calc::ast::Node;
use calc::builder::parse;
use calc::error::CalcError;
use calc::error::LexError;
use calc::error::StructuralError;
use calc::error::SyntaxError;
use calc::normalizer::basic_check;
use calc::number::Number;
use calc::parser::Parser;
use calc::postfix::get_rpn;
use calc::token::Operator;
use calc::token::Operator::{Add, Div, Mul, Pow, Sub};
use calc::token::Token;
use calc::token::Token::{Num, Op, Paren, EOF};
use calc::tokenizer::Tokenizer;
use rust_decimal::Decimal;

fn number(d: Decimal) -> Number {
    let u = d.unpack();
    Number { negative: u.negative, scale: u.scale, hi: u.hi, mid: u.mid, lo: u.lo }
}

/// The number `n / 10^scale`.
fn dec(n: i64, scale: u32) -> Number {
    number(Decimal::new(n, scale))
}

fn tokens(text: &str) -> Vec<Token> {
    Tokenizer::from(text).collect()
}

fn checked(text: &str) -> Result<Vec<Token>, String> {
    basic_check(tokens(text)).map_err(|e| e.message())
}

fn leaf(n: i64) -> Box<Node> {
    Box::new(Node::Num(dec(n, 0)))
}

#[test]
fn basic_check_sign_merge() {
    assert_eq!(
        basic_check(tokens("13.0 + +1 ")),
        Ok(vec![Token::Num(dec(130, 1)), Token::Op(Operator::Add), Token::Num(dec(1, 0))])
    );

    assert_eq!(
        basic_check(tokens("13.0 +- 1 ")),
        Ok(vec![Token::Num(dec(130, 1)), Token::Op(Operator::Sub), Token::Num(dec(1, 0))])
    );

    assert_eq!(
        basic_check(tokens("13.0 -+ 1 ")),
        Ok(vec![Token::Num(dec(130, 1)), Token::Op(Operator::Sub), Token::Num(dec(1, 0))])
    );

    assert_eq!(
        basic_check(tokens("13.0 -- 1 ")),
        Ok(vec![Token::Num(dec(130, 1)), Token::Op(Operator::Add), Token::Num(dec(1, 0))])
    );

    assert_eq!(
        basic_check(tokens("13.0 --- 1 ")),
        Ok(vec![Token::Num(dec(130, 1)), Token::Op(Operator::Sub), Token::Num(dec(1, 0))])
    );

    assert_eq!(
        basic_check(tokens("13.0 +++ 1 ")),
        Ok(vec![Token::Num(dec(130, 1)), Token::Op(Operator::Add), Token::Num(dec(1, 0))])
    );
}

#[test]
fn basic_check_error_check() {
    assert_eq!(checked("(13.0 + 1 ("), Err("Unmatched brackets".to_string()));

    assert_eq!(
        checked("13.0 +* 1 "),
        Err("Expected num or parenthesis behind '+', found operator: '*'".to_string())
    );

    assert_eq!(
        basic_check(tokens("13.0 *+ 1 ")),
        Ok(vec![Token::Num(dec(130, 1)), Token::Op(Operator::Mul), Token::Num(dec(1, 0))])
    );

    assert_eq!(
        basic_check(tokens("13.0 *- 1 ")),
        Ok(vec![Token::Num(dec(130, 1)), Token::Op(Operator::Mul), Token::Num(dec(-1, 0))])
    );

    assert_eq!(
        basic_check(tokens("13.0 *---- 1 ")),
        Ok(vec![Token::Num(dec(130, 1)), Token::Op(Operator::Mul), Token::Num(dec(1, 0))])
    );

    assert_eq!(
        basic_check(tokens("13.0 *-+-- 1 ")),
        Ok(vec![Token::Num(dec(130, 1)), Token::Op(Operator::Mul), Token::Num(dec(-1, 0))])
    );

    assert_eq!(
        checked("13.0 *--/ 1 "),
        Err("Expected num or parenthesis behind '+', found operator: '/'".to_string())
    );

    // a sign may follow an opening parenthesis, another operator may not
    assert_eq!(
        checked("13.0 * 1 (--/ "),
        Err("Expected num or parenthesis behind '+', found operator: '/'".to_string())
    );
    assert_eq!(
        checked("13.0 * 1 (/-- "),
        Err("Expected num or expr behind '(', found operator: '/'".to_string())
    );

    assert_eq!(
        checked("13.0 * 1* ( 1-4) 3.0 "),
        Err("Expected operator or eof behind ')', found num: '3.0'".to_string())
    );

    assert_eq!(
        checked("13.0  1 --/ "),
        Err("Expected operator or eof behind num: '13.0', found num: '1'".to_string())
    );

    assert_eq!(
        checked("*13.0  1 --/ "),
        Err("Expected a num or '(' to start an expr, found '*'".to_string())
    );
}

#[test]
fn test_get_rpn_conversion() {
    let tokens = vec![Num(dec(1, 0)), Op(Add), Num(dec(2, 0)), Token::EOF];
    let rpn = get_rpn(tokens).unwrap();
    assert_eq!(rpn, vec![Num(dec(1, 0)), Num(dec(2, 0)), Op(Add)]);

    // 1 + 2 * 3 => 1 2 3 * +
    let tokens =
        vec![Num(dec(1, 0)), Op(Add), Num(dec(2, 0)), Op(Mul), Num(dec(3, 0)), Token::EOF];
    let rpn = get_rpn(tokens).unwrap();
    assert_eq!(rpn, vec![Num(dec(1, 0)), Num(dec(2, 0)), Num(dec(3, 0)), Op(Mul), Op(Add)]);

    // (1 + 2) * 3 => 1 2 + 3 *
    let tokens = vec![
        Paren('('),
        Num(dec(1, 0)),
        Op(Add),
        Num(dec(2, 0)),
        Paren(')'),
        Op(Mul),
        Num(dec(3, 0)),
        Token::EOF,
    ];
    let rpn = get_rpn(tokens).unwrap();
    assert_eq!(rpn, vec![Num(dec(1, 0)), Num(dec(2, 0)), Op(Add), Num(dec(3, 0)), Op(Mul)]);

    // 2 ^ 3 ^ 4 => 2 3 4 ^ ^
    let tokens =
        vec![Num(dec(2, 0)), Op(Pow), Num(dec(3, 0)), Op(Pow), Num(dec(4, 0)), Token::EOF];
    let rpn = get_rpn(tokens).unwrap();
    assert_eq!(rpn, vec![Num(dec(2, 0)), Num(dec(3, 0)), Num(dec(4, 0)), Op(Pow), Op(Pow)]);

    // 3 * (4 + 5) - 2 ^ 3 => 3 4 5 + * 2 3 ^ -
    let tokens = vec![
        Num(dec(3, 0)),
        Op(Mul),
        Paren('('),
        Num(dec(4, 0)),
        Op(Add),
        Num(dec(5, 0)),
        Paren(')'),
        Op(Sub),
        Num(dec(2, 0)),
        Op(Pow),
        Num(dec(3, 0)),
        Token::EOF,
    ];
    let rpn = get_rpn(tokens).unwrap();
    assert_eq!(
        rpn,
        vec![
            Num(dec(3, 0)),
            Num(dec(4, 0)),
            Num(dec(5, 0)),
            Op(Add),
            Op(Mul),
            Num(dec(2, 0)),
            Num(dec(3, 0)),
            Op(Pow),
            Op(Sub)
        ]
    );
}

#[test]
fn test_parse_ast_construction() {
    let tokens = vec![Num(dec(1, 0)), Num(dec(2, 0)), Op(Add), EOF];
    let ast = parse(tokens).unwrap();
    assert_eq!(ast, Ast(Node::Add(leaf(1), leaf(2))));

    let tokens = vec![Num(dec(2, 0)), Num(dec(3, 0)), Num(dec(4, 0)), Op(Mul), Op(Add), EOF];
    let ast = parse(tokens).unwrap();
    assert_eq!(ast, Ast(Node::Add(leaf(2), Box::new(Node::Mul(leaf(3), leaf(4))))));

    let tokens = vec![Num(dec(1, 0)), Num(dec(2, 0)), Op(Add), Num(dec(3, 0)), Op(Mul), EOF];
    let ast = parse(tokens).unwrap();
    assert_eq!(ast, Ast(Node::Mul(Box::new(Node::Add(leaf(1), leaf(2))), leaf(3))));

    let tokens = vec![Num(dec(2, 0)), Num(dec(3, 0)), Op(Pow), EOF];
    let ast = parse(tokens).unwrap();
    assert_eq!(ast, Ast(Node::Pow(leaf(2), leaf(3))));

    let tokens = vec![
        Num(dec(3, 0)),
        Num(dec(4, 0)),
        Num(dec(5, 0)),
        Op(Add),
        Op(Mul),
        Num(dec(2, 0)),
        Num(dec(3, 0)),
        Op(Pow),
        Op(Sub),
        EOF,
    ];
    let ast = parse(tokens).unwrap();
    assert_eq!(
        ast,
        Ast(Node::Sub(
            Box::new(Node::Mul(leaf(3), Box::new(Node::Add(leaf(4), leaf(5))))),
            Box::new(Node::Pow(leaf(2), leaf(3)))
        ))
    );
}

#[test]
fn test_end_to_end_parsing() {
    let ast = Parser::parse("1 + 2").unwrap();
    assert_eq!(ast, Ast(Node::Add(leaf(1), leaf(2))));

    let ast = Parser::parse("(3 + 4) * 5").unwrap();
    assert_eq!(ast, Ast(Node::Mul(Box::new(Node::Add(leaf(3), leaf(4))), leaf(5))));

    let ast = Parser::parse("-5 + --3").unwrap();
    assert_eq!(ast, Ast(Node::Add(leaf(-5), leaf(3))));

    let ast = Parser::parse("2 ^ 3 ^ 2").unwrap();
    assert_eq!(ast, Ast(Node::Pow(leaf(2), Box::new(Node::Pow(leaf(3), leaf(2))))));

    let ast = Parser::parse("3 * (4 + 5) - 2 ^ 3").unwrap();
    assert_eq!(
        ast,
        Ast(Node::Sub(
            Box::new(Node::Mul(leaf(3), Box::new(Node::Add(leaf(4), leaf(5))))),
            Box::new(Node::Pow(leaf(2), leaf(3)))
        ))
    );
}

#[test]
fn basic_check_wants_eof_at_the_end() {
    assert_eq!(basic_check(vec![]), Err(SyntaxError::MissingTerminator));
    assert_eq!(basic_check(vec![Num(dec(1, 0))]), Err(SyntaxError::MissingTerminator));
    assert_eq!(
        basic_check(vec![EOF, Num(dec(1, 0))]).map_err(|e| e.message()),
        Err("Errors occurs before translating".to_string())
    );
    assert_eq!(basic_check(vec![EOF]), Ok(vec![]));
}

#[test]
fn basic_check_stops_at_the_first_eof() {
    assert_eq!(
        basic_check(vec![Num(dec(1, 0)), EOF, Num(dec(2, 0)), Paren(')'), EOF]),
        Ok(vec![Num(dec(1, 0))])
    );
}

#[test]
fn basic_check_returns_each_error() {
    let one = dec(1, 0);
    let two = dec(2, 0);
    assert_eq!(
        basic_check(vec![Num(one), Num(two), EOF]),
        Err(SyntaxError::DuplicateOperand(one, two))
    );
    assert_eq!(
        basic_check(vec![Paren('('), Num(one), Paren(')'), Num(two), EOF]),
        Err(SyntaxError::MissingOperator(two))
    );
    assert_eq!(
        basic_check(vec![Num(one), Op(Sub), Op(Div), Num(two), EOF]),
        Err(SyntaxError::UnexpectedOperator(Sub, Div))
    );
    assert_eq!(
        basic_check(vec![Num(one), Op(Pow), Op(Mul), Num(two), EOF]),
        Err(SyntaxError::UnexpectedOperator(Pow, Mul))
    );
    assert_eq!(
        basic_check(vec![Paren('('), Op(Pow), Num(two), Paren(')'), EOF]),
        Err(SyntaxError::UnexpectedOperatorAfterOpenParen(Pow))
    );
    assert_eq!(
        basic_check(vec![Op(Div), Num(two), EOF]),
        Err(SyntaxError::LeadingOperatorNotSign(Div))
    );
    assert_eq!(
        basic_check(vec![Num(one), Paren(')'), EOF]),
        Err(SyntaxError::UnmatchedParenthesis)
    );
    assert_eq!(
        basic_check(vec![Paren('('), Num(one), EOF]),
        Err(SyntaxError::UnmatchedParenthesis)
    );
}

#[test]
fn a_sign_is_unary_at_the_start_after_an_operator_and_after_an_opening_parenthesis() {
    assert_eq!(basic_check(tokens("-5")), Ok(vec![Num(dec(-5, 0))]));
    assert_eq!(basic_check(tokens("+5")), Ok(vec![Num(dec(5, 0))]));
    assert_eq!(
        basic_check(tokens("2 ^ -5")),
        Ok(vec![Num(dec(2, 0)), Op(Pow), Num(dec(-5, 0))])
    );
    assert_eq!(
        basic_check(tokens("(-5)")),
        Ok(vec![Paren('('), Num(dec(-5, 0)), Paren(')')])
    );
    assert_eq!(
        basic_check(tokens("(+5)")),
        Ok(vec![Paren('('), Num(dec(5, 0)), Paren(')')])
    );
}

#[test]
fn a_sign_is_binary_after_a_number_and_after_a_closing_parenthesis() {
    assert_eq!(
        basic_check(tokens("1 - 5")),
        Ok(vec![Num(dec(1, 0)), Op(Sub), Num(dec(5, 0))])
    );
    assert_eq!(
        basic_check(tokens("(1) - 5")),
        Ok(vec![Paren('('), Num(dec(1, 0)), Paren(')'), Op(Sub), Num(dec(5, 0))])
    );
    assert_eq!(
        basic_check(tokens("(1) -- 5")),
        Ok(vec![Paren('('), Num(dec(1, 0)), Paren(')'), Op(Add), Num(dec(5, 0))])
    );
}

#[test]
fn a_negated_zero_keeps_its_sign() {
    let zero = Number { negative: true, scale: 0, hi: 0, mid: 0, lo: 0 };
    assert_eq!(basic_check(tokens("-0")), Ok(vec![Num(zero)]));
    assert_eq!(zero.to_string(), "-0");
}

#[test]
fn get_rpn_reports_unmatched_parentheses() {
    assert_eq!(
        get_rpn(vec![Paren('('), Num(dec(1, 0))]),
        Err(SyntaxError::UnmatchedParenthesis)
    );
    assert_eq!(
        get_rpn(vec![Num(dec(1, 0)), Paren(')')]),
        Err(SyntaxError::UnmatchedParenthesis)
    );
    assert_eq!(
        get_rpn(vec![Num(dec(1, 0)), Op(Add), Num(dec(2, 0)), Paren(')'), EOF]),
        Err(SyntaxError::UnmatchedParenthesis)
    );
    assert_eq!(
        get_rpn(vec![Paren('('), Paren('('), Num(dec(1, 0)), Paren(')'), EOF]),
        Err(SyntaxError::UnmatchedParenthesis)
    );
}

#[test]
fn get_rpn_orders_by_priority_and_associativity() {
    let n = |k: i64| Num(dec(k, 0));
    // 1 - 2 - 3 => 1 2 - 3 -
    assert_eq!(
        get_rpn(vec![n(1), Op(Sub), n(2), Op(Sub), n(3)]),
        Ok(vec![n(1), n(2), Op(Sub), n(3), Op(Sub)])
    );
    // 1 * 2 + 3 => 1 2 * 3 +
    assert_eq!(
        get_rpn(vec![n(1), Op(Mul), n(2), Op(Add), n(3)]),
        Ok(vec![n(1), n(2), Op(Mul), n(3), Op(Add)])
    );
    // 1 + 2 ^ 3 * 4 => 1 2 3 ^ 4 * +
    assert_eq!(
        get_rpn(vec![n(1), Op(Add), n(2), Op(Pow), n(3), Op(Mul), n(4)]),
        Ok(vec![n(1), n(2), n(3), Op(Pow), n(4), Op(Mul), Op(Add)])
    );
    // 8 / 4 / 2 => 8 4 / 2 /
    assert_eq!(
        get_rpn(vec![n(8), Op(Div), n(4), Op(Div), n(2)]),
        Ok(vec![n(8), n(4), Op(Div), n(2), Op(Div)])
    );
    assert_eq!(get_rpn(vec![]), Ok(vec![]));
    // what follows EOF is not read
    assert_eq!(get_rpn(vec![n(1), EOF, Paren(')')]), Ok(vec![n(1)]));
}

#[test]
fn parse_returns_each_error() {
    assert_eq!(parse(vec![]), Err(StructuralError::MalformedExpression));
    assert_eq!(parse(vec![EOF]), Err(StructuralError::MalformedExpression));
    assert_eq!(
        parse(vec![Num(dec(1, 0)), Num(dec(2, 0))]),
        Err(StructuralError::MalformedExpression)
    );
    assert_eq!(parse(vec![Op(Add)]), Err(StructuralError::InsufficientOperands));
    assert_eq!(
        parse(vec![Num(dec(1, 0)), Op(Add), Num(dec(2, 0))]),
        Err(StructuralError::InsufficientOperands)
    );
}

#[test]
fn parse_passes_over_parentheses_and_eof() {
    assert_eq!(
        parse(vec![Paren('('), Num(dec(1, 0)), EOF, Num(dec(2, 0)), Paren(')'), Op(Sub)]),
        Ok(Ast(Node::Sub(leaf(1), leaf(2))))
    );
}

#[test]
fn parser_returns_the_error_of_the_first_stage_that_fails() {
    assert_eq!(
        Parser::parse("1 + $ )"),
        Err(CalcError::Lex(LexError::InvalidCharacter('$')))
    );
    assert_eq!(Parser::parse("1 + 2)"), Err(CalcError::Syntax(SyntaxError::UnmatchedParenthesis)));
    assert_eq!(Parser::parse("(1 + 2"), Err(CalcError::Syntax(SyntaxError::UnmatchedParenthesis)));
    assert_eq!(
        Parser::parse("1 +"),
        Err(CalcError::Structure(StructuralError::InsufficientOperands))
    );
    assert_eq!(
        Parser::parse("()"),
        Err(CalcError::Structure(StructuralError::MalformedExpression))
    );
    assert_eq!(
        Parser::parse("-(1 + 2)"),
        Err(CalcError::Structure(StructuralError::InsufficientOperands))
    );
}
