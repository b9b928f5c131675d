use calc::error::ArithmeticError;
use calc::error::CalcError;
use calc::error::LexError;
use calc::error::StructuralError;
use calc::error::SyntaxError;
use calc::expr;
use calc::number::Number;
use rust_decimal::Decimal;

fn number(d: Decimal) -> Number {
    let u = d.unpack();
    Number { negative: u.negative, scale: u.scale, hi: u.hi, mid: u.mid, lo: u.lo }
}

fn decimal(n: Number) -> Decimal {
    let mut d = Decimal::from_parts(n.lo, n.mid, n.hi, false, n.scale);
    d.set_sign_negative(n.negative);
    d
}

fn value(text: &str) -> Decimal {
    decimal(expr(text).unwrap())
}

#[test]
fn a_single_number_is_its_own_value() {
    assert_eq!(expr("5"), Ok(number(Decimal::new(5, 0))));
    assert_eq!(expr("-5"), Ok(number(Decimal::new(-5, 0))));
    assert_eq!(expr("+3.0"), Ok(number(Decimal::new(30, 1))));
    assert_eq!(expr("-0.125"), Ok(number(Decimal::new(-125, 3))));
    assert_eq!(expr("  42  "), Ok(number(Decimal::new(42, 0))));
}

#[test]
fn runs_of_minus_collapse_by_parity() {
    assert_eq!(value("13 --- 1"), Decimal::new(12, 0));
    assert_eq!(value("13 -- 1"), Decimal::new(14, 0));
    assert_eq!(value("13 - 1"), Decimal::new(12, 0));
    assert_eq!(value("13 ---- 1"), Decimal::new(14, 0));
    assert_eq!(value("--5"), Decimal::new(5, 0));
    assert_eq!(value("---5"), Decimal::new(-5, 0));
    assert_eq!(value("2 * --3"), Decimal::new(6, 0));
    assert_eq!(value("2 * ---3"), Decimal::new(-6, 0));
}

#[test]
fn subtraction_groups_to_the_left() {
    assert_eq!(value("10 - 5 - 2"), Decimal::new(3, 0));
    assert_eq!(value("16 / 4 / 2"), Decimal::new(2, 0));
}

#[test]
fn power_groups_to_the_right() {
    assert_eq!(value("2 ^ 3 ^ 2"), Decimal::new(512, 0));
}

#[test]
fn multiplication_binds_tighter_than_addition() {
    assert_eq!(value("1 + 2 * 3"), Decimal::new(7, 0));
    assert_eq!(value("(1 + 2) * 3"), Decimal::new(9, 0));
    assert_eq!(value("2 * 3 ^ 2"), Decimal::new(18, 0));
    assert_eq!(value("3 * (4 + 5) - 2 ^ 3"), Decimal::new(19, 0));
}

#[test]
fn unmatched_parentheses_are_errors() {
    assert_eq!(expr("(1 + 2"), Err(CalcError::Syntax(SyntaxError::UnmatchedParenthesis)));
    assert_eq!(expr("1 + 2)"), Err(CalcError::Syntax(SyntaxError::UnmatchedParenthesis)));
    assert_eq!(expr("(1 + 2").unwrap_err().message(), "Unmatched brackets");
}

#[test]
fn nesting_of_any_depth_keeps_the_value() {
    assert_eq!(value("((((1 + 2))))"), Decimal::new(3, 0));
    assert_eq!(value("(((((((((( 7 ))))))))))"), Decimal::new(7, 0));
    let mut text = String::from("1 + 2 * 3");
    let plain = expr(&text);
    let mut depth = 0;
    while depth < 200 {
        text = format!("({})", text);
        assert_eq!(expr(&text), plain);
        depth += 1;
    }
    assert_eq!(value("((1 + 2) * (3 + 4))"), Decimal::new(21, 0));
    assert_eq!(value("(-5)"), Decimal::new(-5, 0));
}

#[test]
fn decimal_arithmetic_is_exact() {
    assert_eq!(expr("0.1 + 0.2"), Ok(number(Decimal::new(3, 1))));
    assert_eq!(expr("1.10 - 0.20"), Ok(number(Decimal::new(90, 2))));
    assert_eq!(expr("0.5 * 0.5"), Ok(number(Decimal::new(25, 2))));
}

#[test]
fn division_and_power_at_the_edges() {
    assert_eq!(value("1 / 8"), Decimal::new(125, 3));
    let root = value("4 ^ 0.5");
    assert!((root - Decimal::new(2, 0)).abs() < Decimal::new(1, 9));
    assert_eq!(expr("1 / 0"), Err(CalcError::Arithmetic(ArithmeticError::DivisionByZero)));
    assert_eq!(expr("1 / 0").unwrap_err().message(), "Division by zero");
    assert_eq!(expr("1 / (2 - 2)"), Err(CalcError::Arithmetic(ArithmeticError::DivisionByZero)));
    assert_eq!(value("2 ^ -1"), Decimal::new(5, 1));
    assert_eq!(value("5 ^ 0"), Decimal::new(1, 0));
}

#[test]
fn malformed_texts_are_errors() {
    let malformed = Err(CalcError::Structure(StructuralError::MalformedExpression));
    assert_eq!(expr(""), malformed);
    assert_eq!(expr("   "), malformed);
    assert_eq!(expr(" \t \n "), malformed);
    assert_eq!(expr("*"), Err(CalcError::Syntax(SyntaxError::LeadingOperatorNotSign(
        calc::token::Operator::Mul
    ))));
    assert_eq!(expr("").unwrap_err().message(), "Malformed expression");
    assert_eq!(
        expr("*").unwrap_err().message(),
        "Expected a num or '(' to start an expr, found '*'"
    );
    assert_eq!(expr("+"), Err(CalcError::Structure(StructuralError::InsufficientOperands)));
}

#[test]
fn the_same_text_has_the_same_result() {
    for text in ["1 + 2 * 3", "2 ^ 0.5", "1 / 3", "1 / 0", "(", "1 $ 2", ""] {
        assert_eq!(expr(text), expr(text));
    }
}

#[test]
fn arithmetic_out_of_range_is_an_error() {
    assert_eq!(
        expr("79228162514264337593543950335 + 1"),
        Err(CalcError::Arithmetic(ArithmeticError::Overflow))
    );
    assert_eq!(
        expr("79228162514264337593543950335 * 2"),
        Err(CalcError::Arithmetic(ArithmeticError::Overflow))
    );
    assert_eq!(expr("10 ^ 30"), Err(CalcError::Arithmetic(ArithmeticError::UndefinedPower)));
    assert_eq!(expr("10 ^ 30").unwrap_err().message(), "Power has no result");
    assert_eq!(
        expr("79228162514264337593543950335 + 1").unwrap_err().message(),
        "Arithmetic overflow"
    );
}

#[test]
fn lexical_errors_reach_the_caller() {
    assert_eq!(expr("1 + ; 2"), Err(CalcError::Lex(LexError::InvalidCharacter(';'))));
    assert_eq!(expr("12..3"), Err(CalcError::Lex(LexError::MultipleDecimalPoint)));
    assert_eq!(
        expr("123456789012345678901234567890"),
        Err(CalcError::Lex(LexError::NumberOutOfRange))
    );
    assert_eq!(expr("1 + ; 2").unwrap_err().message(), "error character: ;");
    assert_eq!(expr("12..3").unwrap_err().message(), "Multiple decimal point.");
    assert_eq!(
        expr("123456789012345678901234567890").unwrap_err().message(),
        "Number out of range."
    );
}

#[test]
fn the_first_stage_that_fails_decides() {
    // the scan fails before the check sees the missing parenthesis
    assert_eq!(expr("(1 + ?"), Err(CalcError::Lex(LexError::InvalidCharacter('?'))));
    // the check fails before anything is computed
    assert_eq!(expr("1 / 0 )"), Err(CalcError::Syntax(SyntaxError::UnmatchedParenthesis)));
}
