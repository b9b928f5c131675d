//! Scanning text into tokens.
//!
//! Whitespace separates tokens and is otherwise passed over. A numeral is the
//! longest run of digits and decimal points that begins with a digit; it may
//! hold one point at most. The characters `+ - * / ^ ( )` are tokens of their
//! own. When the text is used up, `EOF` is given out once. The first character
//! that fits none of this, the first numeral with a second point and the first
//! numeral that is too long for a number each end the scan with an error.

use crate::error::LexError;
use crate::number::numeral_value;
use crate::number::Number;
use crate::token::all_wf;
use crate::token::Operator;
use crate::token::Token;
use vstd::prelude::*;
use vstd::std_specs::iter::IteratorSpec;

verus! {

/// Whether the character is whitespace, as Unicode defines it.
pub open spec fn is_whitespace(c: char) -> bool {
    let u = c as u32;
    ||| 0x09 <= u <= 0x0D
    ||| u == 0x20
    ||| u == 0x85
    ||| u == 0xA0
    ||| u == 0x1680
    ||| 0x2000 <= u <= 0x200A
    ||| u == 0x2028
    ||| u == 0x2029
    ||| u == 0x202F
    ||| u == 0x205F
    ||| u == 0x3000
}

/// Whether the character is one of the digits `0` to `9`.
pub open spec fn is_digit(c: char) -> bool {
    0x30 <= c as u32 <= 0x39
}

/// Whether the character can stand in a numeral: a digit or the decimal point.
pub open spec fn in_numeral(c: char) -> bool {
    is_digit(c) || c == '.'
}

/// The token that a single character stands for, if it stands for one.
pub open spec fn symbol(c: char) -> Option<Token> {
    if c == '+' {
        Some(Token::Op(Operator::Add))
    } else if c == '-' {
        Some(Token::Op(Operator::Sub))
    } else if c == '*' {
        Some(Token::Op(Operator::Mul))
    } else if c == '/' {
        Some(Token::Op(Operator::Div))
    } else if c == '^' {
        Some(Token::Op(Operator::Pow))
    } else if c == '(' || c == ')' {
        Some(Token::Paren(c))
    } else {
        None
    }
}

/// The first position at or after `from` that holds no whitespace; the length
/// of the text where only whitespace is left.
pub open spec fn skip_whitespace(text: Seq<char>, from: int) -> int
    decreases text.len() - from,
{
    if 0 <= from < text.len() && is_whitespace(text[from]) {
        skip_whitespace(text, from + 1)
    } else {
        from
    }
}

/// The first position at or after `from` that holds neither a digit nor a
/// decimal point; the length of the text where there is none.
pub open spec fn numeral_end(text: Seq<char>, from: int) -> int
    decreases text.len() - from,
{
    if 0 <= from < text.len() && in_numeral(text[from]) {
        numeral_end(text, from + 1)
    } else {
        from
    }
}

/// The number of decimal points in a run of characters.
pub open spec fn points(run: Seq<char>) -> nat
    decreases run.len(),
{
    if run.len() == 0 {
        0
    } else {
        points(run.drop_last()) + if run.last() == '.' {
            1nat
        } else {
            0nat
        }
    }
}

/// What a numeral comes to: the number that it denotes, or an error.
pub open spec fn numeral_token(run: Seq<char>, value: Option<Number>) -> Result<Token, LexError> {
    if points(run) > 1 {
        Err(LexError::MultipleDecimalPoint)
    } else {
        match value {
            Some(n) => Ok(Token::Num(n)),
            None => Err(LexError::NumberOutOfRange),
        }
    }
}

/// One step of the scan.
pub enum Scan {
    /// A token, and the position after it.
    Token(Token, int),
    /// The text is used up.
    End,
    /// The scan fails.
    Fail(LexError),
}

/// The step that the scan takes from the position `from`.
pub open spec fn scan(text: Seq<char>, from: int) -> Scan {
    let at = skip_whitespace(text, from);
    if at < 0 || at >= text.len() {
        Scan::End
    } else if is_digit(text[at]) {
        let end = numeral_end(text, at);
        let run = text.subrange(at, end);
        match numeral_token(run, numeral_value(run)) {
            Ok(token) => Scan::Token(token, end),
            Err(e) => Scan::Fail(e),
        }
    } else {
        match symbol(text[at]) {
            Some(token) => Scan::Token(token, at + 1),
            None => Scan::Fail(LexError::InvalidCharacter(text[at])),
        }
    }
}

/// The tokens that the scan gives out from the position `from` on, and the
/// error that ends it, if one does. Without an error the last token is `EOF`.
pub open spec fn lexed_from(text: Seq<char>, from: int) -> (Seq<Token>, Option<LexError>)
    decreases text.len() - from,
{
    match scan(text, from) {
        Scan::End => (seq![Token::EOF], None),
        Scan::Fail(e) => (Seq::empty(), Some(e)),
        Scan::Token(token, next) => if from < next <= text.len() {
            let (rest, e) = lexed_from(text, next);
            (seq![token] + rest, e)
        } else {
            (seq![token], None)
        },
    }
}

/// The tokens of a text, or the error that ends the scan.
pub open spec fn lexed(text: Seq<char>) -> Result<Seq<Token>, LexError> {
    match lexed_from(text, 0).1 {
        Some(e) => Err(e),
        None => Ok(lexed_from(text, 0).0),
    }
}

/// Skipping whitespace arrives at or after the start, within the text.
pub proof fn lemma_skip_whitespace_bounds(text: Seq<char>, from: int)
    requires
        0 <= from <= text.len(),
    ensures
        from <= skip_whitespace(text, from) <= text.len(),
    decreases text.len() - from,
{
    if from < text.len() && is_whitespace(text[from]) {
        lemma_skip_whitespace_bounds(text, from + 1);
    }
}

/// A numeral ends at or after its start, within the text.
pub proof fn lemma_numeral_end_bounds(text: Seq<char>, from: int)
    requires
        0 <= from <= text.len(),
    ensures
        from <= numeral_end(text, from) <= text.len(),
    decreases text.len() - from,
{
    if from < text.len() && in_numeral(text[from]) {
        lemma_numeral_end_bounds(text, from + 1);
    }
}

/// A token that the scan gives out ends after the position the scan began at,
/// within the text.
pub proof fn lemma_scan_advances(text: Seq<char>, from: int)
    requires
        0 <= from <= text.len(),
    ensures
        scan(text, from) matches Scan::Token(_, next) ==> from < next <= text.len(),
{
    lemma_skip_whitespace_bounds(text, from);
    let at = skip_whitespace(text, from);
    if at < text.len() && is_digit(text[at]) {
        lemma_numeral_end_bounds(text, at + 1);
    }
}

/// A longer run holds at least as many decimal points.
pub proof fn lemma_points_grow(text: Seq<char>, from: int, mid: int, to: int)
    requires
        0 <= from <= mid <= to <= text.len(),
    ensures
        points(text.subrange(from, mid)) <= points(text.subrange(from, to)),
    decreases to - mid,
{
    if mid < to {
        lemma_points_grow(text, from, mid, to - 1);
        assert(text.subrange(from, to).drop_last() == text.subrange(from, to - 1));
    }
}

/// Whether the character is whitespace.
pub fn whitespace(c: char) -> (b: bool)
    ensures
        b == is_whitespace(c),
{
    let u = c as u32;
    (0x09 <= u && u <= 0x0D) || u == 0x20 || u == 0x85 || u == 0xA0 || u == 0x1680 || (0x2000 <= u
        && u <= 0x200A) || u == 0x2028 || u == 0x2029 || u == 0x202F || u == 0x205F || u == 0x3000
}

/// Whether the character is a digit.
pub fn digit(c: char) -> (b: bool)
    ensures
        b == is_digit(c),
{
    let u = c as u32;
    0x30 <= u && u <= 0x39
}

/// The token of a numeral, given the characters of the numeral and the number
/// that was read from them.
pub fn token_of_numeral(run: &Vec<char>, value: Option<Number>) -> (r: Result<Token, LexError>)
    requires
        value matches Some(n) ==> n.wf(),
    ensures
        r == numeral_token(run@, value),
        r matches Ok(token) ==> token.wf(),
{
    let mut seen: usize = 0;
    let mut i: usize = 0;
    while i < run.len()
        invariant
            i <= run.len(),
            seen <= 1,
            seen == points(run@.subrange(0, i as int)),
        decreases run.len() - i,
    {
        assert(run@.subrange(0, i + 1).drop_last() == run@.subrange(0, i as int));
        if run[i] == '.' {
            if seen == 1 {
                proof {
                    lemma_points_grow(run@, 0, i + 1, run@.len() as int);
                    assert(run@.subrange(0, run@.len() as int) == run@);
                }
                return Err(LexError::MultipleDecimalPoint);
            }
            seen = 1;
        }
        i = i + 1;
    }
    assert(run@.subrange(0, i as int) == run@);
    match value {
        Some(n) => Ok(Token::Num(n)),
        None => Err(LexError::NumberOutOfRange),
    }
}

/// A scanner over a text.
pub struct Tokenizer {
    chars: Vec<char>,
    pos: usize,
    error: Option<LexError>,
    reached_end: bool,
}

impl Tokenizer {
    /// The text that is scanned.
    pub closed spec fn text(&self) -> Seq<char> {
        self.chars@
    }

    /// The position in the text from which the scan goes on.
    pub closed spec fn position(&self) -> int {
        self.pos as int
    }

    /// The error that has ended the scan, if one has.
    pub closed spec fn failure(&self) -> Option<LexError> {
        self.error
    }

    /// Whether `EOF` has been given out.
    pub closed spec fn finished(&self) -> bool {
        self.reached_end
    }

    /// Well-formedness: the position lies within the text.
    pub closed spec fn wf(&self) -> bool {
        self.pos <= self.chars.len()
    }

    /// Whether the scan is over, after `EOF` or after an error.
    pub open spec fn stopped(&self) -> bool {
        self.finished() || self.failure() is Some
    }

    /// The tokens that are still to come.
    pub open spec fn remaining(&self) -> Seq<Token> {
        if self.stopped() {
            Seq::empty()
        } else {
            lexed_from(self.text(), self.position()).0
        }
    }

    /// The error that is known once all tokens have come.
    pub open spec fn outcome(&self) -> Option<LexError> {
        if self.stopped() {
            self.failure()
        } else {
            lexed_from(self.text(), self.position()).1
        }
    }

    /// A scanner at the start of `expr`.
    pub fn from(expr: &str) -> (t: Tokenizer)
        ensures
            t.wf(),
            t.text() == expr@,
            t.position() == 0,
            t.failure() is None,
            !t.finished(),
    {
        let mut chars: Vec<char> = Vec::new();
        for c in it: expr.chars()
            invariant
                chars@ == it.seq().take(it.index() as int),
                it.seq() == expr@,
        {
            chars.push(c);
        }
        Tokenizer { chars, pos: 0, error: None, reached_end: false }
    }

    /// The error that has ended the scan, if one has.
    pub fn error(&self) -> (e: Option<LexError>)
        ensures
            e == self.failure(),
    {
        self.error
    }

    /// Gives out the next token.
    ///
    /// `None` means that the scan is over: `EOF` has been given out before, or
    /// an error has ended the scan, now or before; `error` tells which. Once
    /// the scan is over it stays so.
    pub fn next(&mut self) -> (r: Option<Token>)
        requires
            old(self).wf(),
        ensures
            final(self).wf(),
            final(self).text() == old(self).text(),
            old(self).stopped() ==> r is None && final(self).position() == old(self).position()
                && final(self).failure() == old(self).failure() && final(self).finished() == old(self).finished(),
            !old(self).stopped() ==> match scan(old(self).text(), old(self).position()) {
                Scan::Token(token, next) => r == Some(token) && final(self).position() == next
                    && !final(self).stopped(),
                Scan::End => r == Some(Token::EOF) && final(self).position() == old(self).position() && final(self).finished() && final(self).failure() is None,
                Scan::Fail(e) => r is None && final(self).position() == old(self).position()
                    && !final(self).finished() && final(self).failure() == Some(e),
            },
            match r {
                Some(token) => token.wf() && old(self).remaining() == seq![token] + final(self).remaining(),
                None => old(self).remaining() == Seq::<Token>::empty(),
            },
            final(self).outcome() == old(self).outcome(),
    {
        if self.reached_end || self.error.is_some() {
            return None;
        }
        proof {
            lemma_scan_advances(self.chars@, self.pos as int);
        }
        let n = self.chars.len();
        let mut at = self.pos;
        while at < n && whitespace(self.chars[at])
            invariant
                self.pos <= at <= n,
                n == self.chars.len(),
                skip_whitespace(self.chars@, at as int) == skip_whitespace(
                    self.chars@,
                    self.pos as int,
                ),
            decreases n - at,
        {
            at = at + 1;
        }
        if at >= n {
            self.reached_end = true;
            return Some(Token::EOF);
        }
        let c = self.chars[at];
        if digit(c) {
            let mut run: Vec<char> = Vec::new();
            let mut end = at;
            while end < n && (digit(self.chars[end]) || self.chars[end] == '.')
                invariant
                    at <= end <= n,
                    n == self.chars.len(),
                    run@ == self.chars@.subrange(at as int, end as int),
                    numeral_end(self.chars@, end as int) == numeral_end(self.chars@, at as int),
                decreases n - end,
            {
                run.push(self.chars[end]);
                end = end + 1;
            }
            let value = Number::parse(&run);
            match token_of_numeral(&run, value) {
                Ok(token) => {
                    self.pos = end;
                    Some(token)
                },
                Err(e) => {
                    self.error = Some(e);
                    None
                },
            }
        } else {
            match token_of_symbol(c) {
                Some(token) => {
                    self.pos = at + 1;
                    Some(token)
                },
                None => {
                    self.error = Some(LexError::InvalidCharacter(c));
                    None
                },
            }
        }
    }

    /// Gives out all the tokens that are still to come. Afterwards the scan
    /// is over, and `error` tells whether an error has ended it.
    pub fn collect(&mut self) -> (tokens: Vec<Token>)
        requires
            old(self).wf(),
        ensures
            final(self).wf(),
            final(self).text() == old(self).text(),
            tokens@ == old(self).remaining(),
            all_wf(tokens@),
            final(self).stopped(),
            final(self).failure() == old(self).outcome(),
    {
        let mut tokens: Vec<Token> = Vec::new();
        loop
            invariant
                self.wf(),
                self.text() == old(self).text(),
                tokens@ + self.remaining() == old(self).remaining(),
                self.outcome() == old(self).outcome(),
                all_wf(tokens@),
            ensures
                self.wf(),
                self.text() == old(self).text(),
                tokens@ == old(self).remaining(),
                all_wf(tokens@),
                self.stopped(),
                self.failure() == old(self).outcome(),
            decreases
                    self.chars.len() - self.pos + if self.reached_end || self.error is Some {
                        0int
                    } else {
                        1int
                    },
        {
            let ghost before = self.remaining();
            proof {
                lemma_scan_advances(self.chars@, self.pos as int);
            }
            match self.next() {
                Some(token) => {
                    tokens.push(token);
                    assert(tokens@ + self.remaining() == old(self).remaining()) by {
                        assert(tokens@ + self.remaining() == tokens@.drop_last() + (seq![token]
                            + self.remaining()));
                    }
                },
                None => {
                    assert(tokens@ + before == tokens@);
                    break ;
                },
            }
        }
        tokens
    }
}

/// The token that a single character stands for, if it stands for one.
pub fn token_of_symbol(c: char) -> (r: Option<Token>)
    ensures
        r == symbol(c),
        r matches Some(token) ==> token.wf(),
{
    if c == '+' {
        Some(Token::Op(Operator::Add))
    } else if c == '-' {
        Some(Token::Op(Operator::Sub))
    } else if c == '*' {
        Some(Token::Op(Operator::Mul))
    } else if c == '/' {
        Some(Token::Op(Operator::Div))
    } else if c == '^' {
        Some(Token::Op(Operator::Pow))
    } else if c == '(' || c == ')' {
        Some(Token::Paren(c))
    } else {
        None
    }
}

/// Scans a whole text: its tokens, `EOF` at their end, or the error that
/// ends the scan.
pub fn tokenize(expr: &str) -> (r: Result<Vec<Token>, LexError>)
    ensures
        match r {
            Ok(tokens) => lexed(expr@) == Ok::<_, LexError>(tokens@) && all_wf(tokens@),
            Err(e) => lexed(expr@) == Err::<Seq<Token>, _>(e),
        },
{
    let mut tokenizer = Tokenizer::from(expr);
    let tokens = tokenizer.collect();
    match tokenizer.error() {
        Some(e) => Err(e),
        None => Ok(tokens),
    }
}

} // verus!
