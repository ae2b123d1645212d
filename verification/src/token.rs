//! Tokens, and how a scanned word or number becomes one.

use crate::text::{
    contains_dot, integer_literal_value, is_ascii_digit, is_number_part, parse_integer_literal,
    unicode_uppercase,
};
use vstd::prelude::*;

verus! {

/// One lexical unit of a statement.
///
/// A keyword carries its upper-case form, an identifier and a string literal
/// their text as written. A fractional literal carries the digits and dots it
/// was written with: turning them into a binary floating-point number is left
/// to the caller. The temporal variants and `Whitespace` are never produced by
/// the lexer; the parser skips `Whitespace` around values and rejects the
/// others.
#[derive(Debug, Clone, PartialEq)]
pub enum Token {
    Keyword(String),
    Identifier(String),
    StringLiteral(String),
    Integer(i64),
    Float(String),
    Boolean(bool),
    Null,
    Date(String),
    Time(String),
    Timestamp(String),
    Interval(String),
    LeftParen,
    RightParen,
    Comma,
    SemiColon,
    Whitespace(String),
}

/// The mathematical value of a [`Token`]: the same variants over sequences of
/// characters.
pub enum TokenView {
    Keyword(Seq<char>),
    Identifier(Seq<char>),
    StringLiteral(Seq<char>),
    Integer(i64),
    Float(Seq<char>),
    Boolean(bool),
    Null,
    Date(Seq<char>),
    Time(Seq<char>),
    Timestamp(Seq<char>),
    Interval(Seq<char>),
    LeftParen,
    RightParen,
    Comma,
    SemiColon,
    Whitespace(Seq<char>),
}

impl View for Token {
    type V = TokenView;

    open spec fn view(&self) -> TokenView {
        match *self {
            Token::Keyword(s) => TokenView::Keyword(s@),
            Token::Identifier(s) => TokenView::Identifier(s@),
            Token::StringLiteral(s) => TokenView::StringLiteral(s@),
            Token::Integer(i) => TokenView::Integer(i),
            Token::Float(s) => TokenView::Float(s@),
            Token::Boolean(b) => TokenView::Boolean(b),
            Token::Null => TokenView::Null,
            Token::Date(s) => TokenView::Date(s@),
            Token::Time(s) => TokenView::Time(s@),
            Token::Timestamp(s) => TokenView::Timestamp(s@),
            Token::Interval(s) => TokenView::Interval(s@),
            Token::LeftParen => TokenView::LeftParen,
            Token::RightParen => TokenView::RightParen,
            Token::Comma => TokenView::Comma,
            Token::SemiColon => TokenView::SemiColon,
            Token::Whitespace(s) => TokenView::Whitespace(s@),
        }
    }
}

/// The value of an optional token.
pub open spec fn optional_view(token: Option<Token>) -> Option<TokenView> {
    match token {
        Some(t) => Some(t@),
        None => None,
    }
}

/// Whether an upper-case word is one of the ten reserved words.
pub open spec fn is_reserved(upper: Seq<char>) -> bool {
    ||| upper == "INSERT"@
    ||| upper == "INTO"@
    ||| upper == "VALUES"@
    ||| upper == "DATE"@
    ||| upper == "TIME"@
    ||| upper == "TIMESTAMP"@
    ||| upper == "INTERVAL"@
    ||| upper == "NULL"@
    ||| upper == "TRUE"@
    ||| upper == "FALSE"@
}

/// Whether a word, in whatever case it is written, is a reserved word.
pub open spec fn is_keyword(word: Seq<char>) -> bool {
    is_reserved(unicode_uppercase(word))
}

/// The token that a scanned word stands for: `NULL`, `TRUE` and `FALSE` have
/// tokens of their own, every other reserved word is a keyword in upper case,
/// and any other word is an identifier, kept as written.
pub open spec fn word_token(word: Seq<char>) -> TokenView {
    let upper = unicode_uppercase(word);
    if !is_reserved(upper) {
        TokenView::Identifier(word)
    } else if upper == "NULL"@ {
        TokenView::Null
    } else if upper == "TRUE"@ {
        TokenView::Boolean(true)
    } else if upper == "FALSE"@ {
        TokenView::Boolean(false)
    } else {
        TokenView::Keyword(upper)
    }
}

/// The token that a scanned run of digits and dots stands for: with a dot it
/// is a fractional literal, kept as written; without one it is an integer.
pub open spec fn number_token(run: Seq<char>) -> TokenView {
    if run.contains('.') {
        TokenView::Float(run)
    } else {
        TokenView::Integer(integer_literal_value(run))
    }
}

/// Tests an upper-case word against the reserved words.
pub(crate) fn reserved(upper: &str) -> (b: bool)
    ensures
        b == is_reserved(upper@),
{
    *upper == *"INSERT" || *upper == *"INTO" || *upper == *"VALUES" || *upper == *"DATE" || *upper
        == *"TIME" || *upper == *"TIMESTAMP" || *upper == *"INTERVAL" || *upper == *"NULL"
        || *upper == *"TRUE" || *upper == *"FALSE"
}

/// Turns a scanned word into its token.
pub(crate) fn classify_word(word: String) -> (token: Token)
    ensures
        token@ == word_token(word@),
{
    let upper = word.as_str().to_uppercase();
    if !reserved(upper.as_str()) {
        Token::Identifier(word)
    } else if *upper.as_str() == *"NULL" {
        Token::Null
    } else if *upper.as_str() == *"TRUE" {
        Token::Boolean(true)
    } else if *upper.as_str() == *"FALSE" {
        Token::Boolean(false)
    } else {
        Token::Keyword(upper)
    }
}

/// Turns a scanned run of digits and dots into its token.
pub(crate) fn classify_number(run: String) -> (token: Token)
    requires
        forall|i: int| 0 <= i < run@.len() ==> is_number_part(#[trigger] run@[i]),
    ensures
        token@ == number_token(run@),
{
    if contains_dot(run.as_str()) {
        Token::Float(run)
    } else {
        assert forall|i: int| 0 <= i < run@.len() implies is_ascii_digit(#[trigger] run@[i]) by {
            assert(is_number_part(run@[i]));
            assert(run@.contains(run@[i]));
        }
        Token::Integer(parse_integer_literal(run.as_str()))
    }
}

/// Whether two tokens are the same.
pub(crate) fn same_token(a: &Token, b: &Token) -> (same: bool)
    ensures
        same == (a@ == b@),
{
    match (a, b) {
        (Token::Keyword(x), Token::Keyword(y)) => *x == *y,
        (Token::Identifier(x), Token::Identifier(y)) => *x == *y,
        (Token::StringLiteral(x), Token::StringLiteral(y)) => *x == *y,
        (Token::Integer(x), Token::Integer(y)) => *x == *y,
        (Token::Float(x), Token::Float(y)) => *x == *y,
        (Token::Boolean(x), Token::Boolean(y)) => *x == *y,
        (Token::Null, Token::Null) => true,
        (Token::Date(x), Token::Date(y)) => *x == *y,
        (Token::Time(x), Token::Time(y)) => *x == *y,
        (Token::Timestamp(x), Token::Timestamp(y)) => *x == *y,
        (Token::Interval(x), Token::Interval(y)) => *x == *y,
        (Token::LeftParen, Token::LeftParen) => true,
        (Token::RightParen, Token::RightParen) => true,
        (Token::Comma, Token::Comma) => true,
        (Token::SemiColon, Token::SemiColon) => true,
        (Token::Whitespace(x), Token::Whitespace(y)) => *x == *y,
        _ => false,
    }
}

} // verus!
