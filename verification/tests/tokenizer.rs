use calc::error::LexError;
use calc::number::Number;
use calc::token::Operator;
use calc::token::Token;
use calc::tokenizer::digit;
use calc::tokenizer::token_of_numeral;
use calc::tokenizer::token_of_symbol;
use calc::tokenizer::tokenize;
use calc::tokenizer::whitespace;
use calc::tokenizer::Tokenizer;
use rust_decimal::Decimal;

fn number(d: Decimal) -> Number {
    let u = d.unpack();
    Number { negative: u.negative, scale: u.scale, hi: u.hi, mid: u.mid, lo: u.lo }
}

#[test]
fn number_parsing() {
    let mut tknz = Tokenizer::from("   +   -   ;   ");
    let res = tknz.collect();
    assert_eq!(res, vec![Token::Op(Operator::Add), Token::Op(Operator::Sub)]);
    assert_eq!(tknz.error(), Some(LexError::InvalidCharacter(';')));
}

#[test]
fn whitespace_skipping() {
    let mut tknz = Tokenizer::from("   12.3  12..3   ");
    let res = tknz.collect();
    assert_eq!(res, vec![Token::Num(number(Decimal::new(123, 1)))]);
    assert_eq!(tknz.error(), Some(LexError::MultipleDecimalPoint));
}

#[test]
fn total_legal_condition() {
    let mut tknz = Tokenizer::from(" + 12.000 -");
    let res = tknz.collect();
    assert_eq!(
        res,
        vec![
            Token::Op(Operator::Add),
            Token::Num(number(Decimal::new(12000, 3))),
            Token::Op(Operator::Sub),
            Token::EOF
        ]
    );
    assert_eq!(tknz.error(), None);
}

#[test]
fn next_gives_eof_once_and_then_nothing() {
    let mut tknz = Tokenizer::from(" 7 ");
    assert_eq!(tknz.next(), Some(Token::Num(number(Decimal::new(7, 0)))));
    assert_eq!(tknz.next(), Some(Token::EOF));
    assert_eq!(tknz.next(), None);
    assert_eq!(tknz.next(), None);
    assert_eq!(tknz.error(), None);
}

#[test]
fn next_gives_nothing_after_an_error() {
    let mut tknz = Tokenizer::from("1 ? 2");
    assert_eq!(tknz.next(), Some(Token::Num(number(Decimal::new(1, 0)))));
    assert_eq!(tknz.next(), None);
    assert_eq!(tknz.error(), Some(LexError::InvalidCharacter('?')));
    assert_eq!(tknz.next(), None);
    assert_eq!(tknz.collect(), vec![]);
    assert_eq!(tknz.error(), Some(LexError::InvalidCharacter('?')));
}

#[test]
fn every_symbol_is_a_token() {
    assert_eq!(
        tokenize("+-*/^()"),
        Ok(vec![
            Token::Op(Operator::Add),
            Token::Op(Operator::Sub),
            Token::Op(Operator::Mul),
            Token::Op(Operator::Div),
            Token::Op(Operator::Pow),
            Token::Paren('('),
            Token::Paren(')'),
            Token::EOF
        ])
    );
    assert_eq!(token_of_symbol('+'), Some(Token::Op(Operator::Add)));
    assert_eq!(token_of_symbol('-'), Some(Token::Op(Operator::Sub)));
    assert_eq!(token_of_symbol('*'), Some(Token::Op(Operator::Mul)));
    assert_eq!(token_of_symbol('/'), Some(Token::Op(Operator::Div)));
    assert_eq!(token_of_symbol('^'), Some(Token::Op(Operator::Pow)));
    assert_eq!(token_of_symbol('('), Some(Token::Paren('(')));
    assert_eq!(token_of_symbol(')'), Some(Token::Paren(')')));
    assert_eq!(token_of_symbol('.'), None);
    assert_eq!(token_of_symbol('x'), None);
}

#[test]
fn empty_and_blank_texts_hold_eof_alone() {
    assert_eq!(tokenize(""), Ok(vec![Token::EOF]));
    assert_eq!(tokenize("  \t\r\n\u{a0}\u{3000} "), Ok(vec![Token::EOF]));
}

#[test]
fn numerals_are_read_whole() {
    assert_eq!(
        tokenize("12.5+3"),
        Ok(vec![
            Token::Num(number(Decimal::new(125, 1))),
            Token::Op(Operator::Add),
            Token::Num(number(Decimal::new(3, 0))),
            Token::EOF
        ])
    );
    // a point at the end belongs to the numeral
    assert_eq!(tokenize("12."), Ok(vec![Token::Num(number(Decimal::new(12, 0))), Token::EOF]));
    assert_eq!(
        tokenize("007.50"),
        Ok(vec![Token::Num(number(Decimal::new(750, 2))), Token::EOF])
    );
}

#[test]
fn tokenize_returns_each_error() {
    assert_eq!(tokenize("1 + a"), Err(LexError::InvalidCharacter('a')));
    assert_eq!(tokenize(".5"), Err(LexError::InvalidCharacter('.')));
    assert_eq!(tokenize("1.2.3"), Err(LexError::MultipleDecimalPoint));
    assert_eq!(tokenize("1..2"), Err(LexError::MultipleDecimalPoint));
    assert_eq!(
        tokenize("1 + 99999999999999999999999999999999999"),
        Err(LexError::NumberOutOfRange)
    );
    // a digit of another script is no digit
    assert_eq!(tokenize("\u{663}"), Err(LexError::InvalidCharacter('\u{663}')));
}

#[test]
fn the_first_error_wins() {
    assert_eq!(tokenize("1.2.3 ?"), Err(LexError::MultipleDecimalPoint));
    assert_eq!(tokenize("? 1.2.3"), Err(LexError::InvalidCharacter('?')));
}

#[test]
fn token_of_numeral_counts_the_points() {
    let n = number(Decimal::new(15, 1));
    let run = |s: &str| s.chars().collect::<Vec<char>>();
    assert_eq!(token_of_numeral(&run("1.5"), Some(n)), Ok(Token::Num(n)));
    assert_eq!(token_of_numeral(&run("15"), Some(n)), Ok(Token::Num(n)));
    assert_eq!(token_of_numeral(&run("1.5"), None), Err(LexError::NumberOutOfRange));
    assert_eq!(token_of_numeral(&run("1.5."), Some(n)), Err(LexError::MultipleDecimalPoint));
    assert_eq!(token_of_numeral(&run("1..5"), None), Err(LexError::MultipleDecimalPoint));
}

#[test]
fn whitespace_is_what_std_calls_whitespace() {
    let mut u: u32 = 0;
    while u <= 0x10FFFF {
        if let Some(c) = char::from_u32(u) {
            assert_eq!(whitespace(c), c.is_whitespace());
        }
        u += 1;
    }
}

#[test]
fn digits_are_the_ten_ascii_digits() {
    let mut u: u32 = 0;
    while u <= 0x10FFFF {
        if let Some(c) = char::from_u32(u) {
            assert_eq!(digit(c), c.is_ascii_digit());
        }
        u += 1;
    }
}

#[test]
fn number_parse_reads_what_rust_decimal_reads() {
    let run = |s: &str| s.chars().collect::<Vec<char>>();
    assert_eq!(Number::parse(&run("0.25")), Some(number(Decimal::new(25, 2))));
    assert_eq!(Number::parse(&run("13.0")), Some(number(Decimal::new(130, 1))));
    assert_eq!(
        Number::parse(&run("79228162514264337593543950335")),
        Some(number(Decimal::MAX))
    );
    assert_eq!(Number::parse(&run("79228162514264337593543950336")), None);
}
