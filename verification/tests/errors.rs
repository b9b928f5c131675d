use calc::error::ArithmeticError;
use calc::error::CalcError;
use calc::error::LexError;
use calc::error::StructuralError;
use calc::error::SyntaxError;
use calc::number::Number;
use calc::number::MAX_SCALE;
use calc::token::Operator;
use calc::token::Token;
use rust_decimal::Decimal;

fn number(d: Decimal) -> Number {
    let u = d.unpack();
    Number { negative: u.negative, scale: u.scale, hi: u.hi, mid: u.mid, lo: u.lo }
}

#[test]
fn operators_have_their_priorities() {
    assert_eq!(Operator::Add.priority(), 1);
    assert_eq!(Operator::Sub.priority(), 1);
    assert_eq!(Operator::Mul.priority(), 2);
    assert_eq!(Operator::Div.priority(), 2);
    assert_eq!(Operator::Pow.priority(), 3);
}

#[test]
fn every_operator_but_power_is_left_associative() {
    assert!(Operator::Add.is_left_associative());
    assert!(Operator::Sub.is_left_associative());
    assert!(Operator::Mul.is_left_associative());
    assert!(Operator::Div.is_left_associative());
    assert!(!Operator::Pow.is_left_associative());
}

#[test]
fn operators_are_written_as_their_symbols() {
    assert_eq!(Operator::Add.to_string(), "+");
    assert_eq!(Operator::Sub.to_string(), "-");
    assert_eq!(Operator::Mul.to_string(), "*");
    assert_eq!(Operator::Div.to_string(), "/");
    assert_eq!(Operator::Pow.to_string(), "^");
    assert_eq!(Operator::Pow.symbol(), "^");
}

#[test]
fn tokens_are_written_as_they_were_read() {
    assert_eq!(Token::Op(Operator::Mul).to_string(), "*");
    assert_eq!(Token::Paren('(').to_string(), "(");
    assert_eq!(Token::Paren(')').to_string(), ")");
    assert_eq!(Token::Num(number(Decimal::new(-1250, 2))).to_string(), "-12.50");
    assert_eq!(Token::EOF.to_string(), "EOF");
}

#[test]
fn numbers_are_written_in_plain_notation() {
    assert_eq!(number(Decimal::new(130, 1)).to_string(), "13.0");
    assert_eq!(number(Decimal::new(1, 9)).to_string(), "0.000000001");
    assert_eq!(number(Decimal::MAX).to_string(), "79228162514264337593543950335");
    assert_eq!(number(Decimal::new(-5, 0)).to_string(), "-5");
}

#[test]
fn negate_flips_the_sign_and_nothing_else() {
    let n = number(Decimal::new(125, 2));
    let m = n.negate();
    assert_eq!(m, Number { negative: true, scale: 2, hi: 0, mid: 0, lo: 125 });
    assert_eq!(m.negate(), n);
    let zero = number(Decimal::new(0, 1));
    assert_eq!(zero.negate(), Number { negative: true, scale: 1, hi: 0, mid: 0, lo: 0 });
    let big = number(Decimal::MAX);
    assert_eq!(big.negate(), number(Decimal::MIN));
}

#[test]
fn from_parts_checks_the_scale() {
    assert_eq!(
        Number::from_parts(1, 2, 3, true, 28),
        Some(Number { negative: true, scale: 28, hi: 3, mid: 2, lo: 1 })
    );
    assert_eq!(Number::from_parts(1, 2, 3, true, 29), None);
    assert_eq!(Number::from_parts(0, 0, 0, false, 0), Some(number(Decimal::ZERO)));
    assert_eq!(MAX_SCALE, 28);
}

#[test]
fn is_zero_looks_at_the_magnitude_alone() {
    assert!(number(Decimal::ZERO).is_zero());
    assert!(Number { negative: true, scale: 7, hi: 0, mid: 0, lo: 0 }.is_zero());
    assert!(!Number { negative: false, scale: 0, hi: 0, mid: 0, lo: 1 }.is_zero());
    assert!(!Number { negative: false, scale: 0, hi: 0, mid: 1, lo: 0 }.is_zero());
    assert!(!Number { negative: false, scale: 0, hi: 1, mid: 0, lo: 0 }.is_zero());
}

#[test]
fn lexical_errors_have_their_messages() {
    assert_eq!(LexError::InvalidCharacter('x').message(), "error character: x");
    assert_eq!(LexError::MultipleDecimalPoint.message(), "Multiple decimal point.");
    assert_eq!(LexError::NumberOutOfRange.message(), "Number out of range.");
}

#[test]
fn syntax_errors_have_their_messages() {
    let a = number(Decimal::new(130, 1));
    let b = number(Decimal::new(-1, 0));
    assert_eq!(SyntaxError::MissingTerminator.message(), "Errors occurs before translating");
    assert_eq!(
        SyntaxError::DuplicateOperand(a, b).message(),
        "Expected operator or eof behind num: '13.0', found num: '-1'"
    );
    assert_eq!(
        SyntaxError::MissingOperator(a).message(),
        "Expected operator or eof behind ')', found num: '13.0'"
    );
    assert_eq!(
        SyntaxError::UnexpectedOperator(Operator::Add, Operator::Div).message(),
        "Expected num or parenthesis behind '+', found operator: '/'"
    );
    assert_eq!(
        SyntaxError::UnexpectedOperatorAfterOpenParen(Operator::Pow).message(),
        "Expected num or expr behind '(', found operator: '^'"
    );
    assert_eq!(
        SyntaxError::LeadingOperatorNotSign(Operator::Mul).message(),
        "Expected a num or '(' to start an expr, found '*'"
    );
    assert_eq!(SyntaxError::UnmatchedParenthesis.message(), "Unmatched brackets");
}

#[test]
fn message_with_builds_around_the_given_texts() {
    let a = number(Decimal::new(1, 0));
    assert_eq!(
        SyntaxError::DuplicateOperand(a, a).message_with("first", "second"),
        "Expected operator or eof behind num: 'first', found num: 'second'"
    );
    assert_eq!(
        SyntaxError::MissingOperator(a).message_with("first", "second"),
        "Expected operator or eof behind ')', found num: 'first'"
    );
    assert_eq!(
        SyntaxError::UnmatchedParenthesis.message_with("first", "second"),
        "Unmatched brackets"
    );
}

#[test]
fn structural_and_arithmetic_errors_have_their_messages() {
    assert_eq!(
        StructuralError::InsufficientOperands.message(),
        "Insufficient operands for operator"
    );
    assert_eq!(StructuralError::MalformedExpression.message(), "Malformed expression");
    assert_eq!(ArithmeticError::DivisionByZero.message(), "Division by zero");
    assert_eq!(ArithmeticError::Overflow.message(), "Arithmetic overflow");
    assert_eq!(ArithmeticError::UndefinedPower.message(), "Power has no result");
}

#[test]
fn a_wrapped_error_has_the_message_of_the_error_inside() {
    assert_eq!(CalcError::Lex(LexError::MultipleDecimalPoint).message(), "Multiple decimal point.");
    assert_eq!(
        CalcError::Syntax(SyntaxError::UnmatchedParenthesis).message(),
        "Unmatched brackets"
    );
    assert_eq!(
        CalcError::Structure(StructuralError::MalformedExpression).message(),
        "Malformed expression"
    );
    assert_eq!(CalcError::Arithmetic(ArithmeticError::DivisionByZero).message(), "Division by zero");
}
