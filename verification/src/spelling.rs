//! The tokens that spell a statement, and the tokens that the lexer can hand
//! out.

use crate::ast::{InsertView, ValueView};
use crate::error::Temporal;
use crate::token::TokenView;
use vstd::prelude::*;

verus! {

/// The tokens that spell one value.
pub open spec fn value_tokens(item: ValueView) -> Seq<TokenView> {
    match item {
        ValueView::Integer(i) => seq![TokenView::Integer(i)],
        ValueView::Float(digits) => seq![TokenView::Float(digits)],
        ValueView::Text(text) => seq![TokenView::StringLiteral(text)],
        ValueView::Boolean(b) => seq![TokenView::Boolean(b)],
        ValueView::Null => seq![TokenView::Null],
        ValueView::Date(text) => seq![
            TokenView::Keyword(Temporal::Date.keyword()),
            TokenView::StringLiteral(text),
        ],
        ValueView::Time(text) => seq![
            TokenView::Keyword(Temporal::Time.keyword()),
            TokenView::StringLiteral(text),
        ],
        ValueView::Timestamp(text) => seq![
            TokenView::Keyword(Temporal::Timestamp.keyword()),
            TokenView::StringLiteral(text),
        ],
        ValueView::Interval(text) => seq![
            TokenView::Keyword(Temporal::Interval.keyword()),
            TokenView::StringLiteral(text),
        ],
    }
}

/// The tokens that spell a list of column names: the names as identifiers,
/// with a comma between each two.
pub open spec fn column_list_tokens(names: Seq<Seq<char>>) -> Seq<TokenView>
    decreases names.len(),
{
    if names.len() == 0 {
        Seq::empty()
    } else if names.len() == 1 {
        seq![TokenView::Identifier(names[0])]
    } else {
        seq![TokenView::Identifier(names[0]), TokenView::Comma] + column_list_tokens(names.skip(1))
    }
}

/// The tokens that spell a list of values, with a comma between each two.
pub open spec fn value_list_tokens(items: Seq<ValueView>) -> Seq<TokenView>
    decreases items.len(),
{
    if items.len() == 0 {
        Seq::empty()
    } else if items.len() == 1 {
        value_tokens(items[0])
    } else {
        value_tokens(items[0]) + seq![TokenView::Comma] + value_list_tokens(items.skip(1))
    }
}

/// The tokens of a statement up to and including the parenthesis that opens
/// the column list.
pub open spec fn insert_head_tokens(table: Seq<char>) -> Seq<TokenView> {
    seq![
        TokenView::Keyword("INSERT"@),
        TokenView::Keyword("INTO"@),
        TokenView::Identifier(table),
        TokenView::LeftParen,
    ]
}

/// The tokens between the column list and the value list.
pub open spec fn insert_middle_tokens() -> Seq<TokenView> {
    seq![TokenView::RightParen, TokenView::Keyword("VALUES"@), TokenView::LeftParen]
}

/// The tokens at the end of a statement: the closing parenthesis, with or
/// without a semicolon after it.
pub open spec fn closing_tokens(semicolon: bool) -> Seq<TokenView> {
    if semicolon {
        seq![TokenView::RightParen, TokenView::SemiColon]
    } else {
        seq![TokenView::RightParen]
    }
}

/// The tokens that spell a statement, with or without the semicolon at its
/// end.
pub open spec fn insert_tokens(insert: InsertView, semicolon: bool) -> Seq<TokenView> {
    insert_head_tokens(insert.table) + column_list_tokens(insert.columns) + insert_middle_tokens()
        + value_list_tokens(insert.values) + closing_tokens(semicolon)
}

/// A token that the lexer can hand out: none of the white-space and temporal
/// tokens, and of the keywords only the seven reserved words that are given
/// as keywords, in upper case.
pub open spec fn is_lexical(token: TokenView) -> bool {
    match token {
        TokenView::Whitespace(_) => false,
        TokenView::Date(_) => false,
        TokenView::Time(_) => false,
        TokenView::Timestamp(_) => false,
        TokenView::Interval(_) => false,
        TokenView::Keyword(word) => {
            ||| word == "INSERT"@
            ||| word == "INTO"@
            ||| word == "VALUES"@
            ||| word == "DATE"@
            ||| word == "TIME"@
            ||| word == "TIMESTAMP"@
            ||| word == "INTERVAL"@
        },
        _ => true,
    }
}

/// Tokens that the lexer can hand out, all of them.
pub open spec fn all_lexical(tokens: Seq<TokenView>) -> bool {
    forall|i: int| 0 <= i < tokens.len() ==> is_lexical(#[trigger] tokens[i])
}

} // verus!
