//! The grammar of an `INSERT` statement, as functions on a sequence of tokens.
//!
//! ```text
//! insert_stmt := "INSERT" "INTO" identifier "(" column_list ")" "VALUES" "(" value_list ")" [";"]
//! column_list := identifier ("," identifier)*
//! value_list  := value ("," value)*
//! value       := integer | float | string | boolean | "NULL"
//!              | ("DATE"|"TIME"|"TIMESTAMP"|"INTERVAL") string
//! ```
//!
//! Each function takes the tokens that are still to be read and gives the
//! outcome of reading one production from their front, together with the
//! tokens left over. A failure leaves the tokens from the offending one on.

use crate::ast::{InsertView, QueryView, ValueView};
use crate::error::{Expected, ParseError, Temporal};
use crate::text::eq_ignoring_ascii_case;
use crate::token::TokenView;
use vstd::prelude::*;

verus! {

/// The outcome of reading one production, and the tokens left over.
pub struct Step<T> {
    pub outcome: Result<T, ParseError>,
    pub rest: Seq<TokenView>,
}

/// A production read with success.
pub open spec fn accept<T>(item: T, rest: Seq<TokenView>) -> Step<T> {
    Step { outcome: Ok(item), rest }
}

/// A production that failed.
pub open spec fn reject<T>(error: ParseError, rest: Seq<TokenView>) -> Step<T> {
    Step { outcome: Err(error), rest }
}

/// A step on the rest of a list, with the items already read put in front.
pub open spec fn prefixed<T>(items: Seq<T>, step: Step<Seq<T>>) -> Step<Seq<T>> {
    Step {
        outcome: match step.outcome {
            Ok(more) => Ok(items + more),
            Err(error) => Err(error),
        },
        rest: step.rest,
    }
}

/// The token to be read next, if there is one.
pub open spec fn lookahead(tokens: Seq<TokenView>) -> Option<TokenView> {
    if tokens.len() > 0 {
        Some(tokens[0])
    } else {
        None
    }
}

/// Whether the next token is `token`.
pub open spec fn at_token(tokens: Seq<TokenView>, token: TokenView) -> bool {
    lookahead(tokens) == Some(token)
}

/// Whether the next token is the keyword `word`, in whatever case its ASCII
/// letters are.
pub open spec fn at_keyword(tokens: Seq<TokenView>, word: Seq<char>) -> bool {
    lookahead(tokens) matches Some(TokenView::Keyword(text)) && eq_ignoring_ascii_case(text, word)
}

/// The tokens without the white-space tokens at their front.
pub open spec fn skip_blanks(tokens: Seq<TokenView>) -> Seq<TokenView>
    decreases tokens.len(),
{
    if lookahead(tokens) matches Some(TokenView::Whitespace(_)) {
        skip_blanks(tokens.skip(1))
    } else {
        tokens
    }
}

/// The kind of temporal literal that a keyword introduces, if any.
pub open spec fn temporal_kind(keyword: Seq<char>) -> Option<Temporal> {
    if eq_ignoring_ascii_case(keyword, Temporal::Date.keyword()) {
        Some(Temporal::Date)
    } else if eq_ignoring_ascii_case(keyword, Temporal::Time.keyword()) {
        Some(Temporal::Time)
    } else if eq_ignoring_ascii_case(keyword, Temporal::Timestamp.keyword()) {
        Some(Temporal::Timestamp)
    } else if eq_ignoring_ascii_case(keyword, Temporal::Interval.keyword()) {
        Some(Temporal::Interval)
    } else {
        None
    }
}

/// The value of a temporal literal of the given kind.
pub open spec fn temporal_value(kind: Temporal, text: Seq<char>) -> ValueView {
    match kind {
        Temporal::Date => ValueView::Date(text),
        Temporal::Time => ValueView::Time(text),
        Temporal::Timestamp => ValueView::Timestamp(text),
        Temporal::Interval => ValueView::Interval(text),
    }
}

/// The string that must follow the keyword of a temporal literal.
pub open spec fn temporal_literal(kind: Temporal, tokens: Seq<TokenView>) -> Step<ValueView> {
    match lookahead(tokens) {
        Some(TokenView::StringLiteral(text)) => accept(temporal_value(kind, text), tokens.skip(1)),
        _ => reject(ParseError::LiteralShape(kind), tokens),
    }
}

/// `value`: one literal. Its kind is decided by the next token alone; after
/// the keyword of a temporal literal a string is required.
pub open spec fn value(tokens: Seq<TokenView>) -> Step<ValueView> {
    match lookahead(tokens) {
        Some(TokenView::Integer(i)) => accept(ValueView::Integer(i), tokens.skip(1)),
        Some(TokenView::Float(digits)) => accept(ValueView::Float(digits), tokens.skip(1)),
        Some(TokenView::StringLiteral(text)) => accept(ValueView::Text(text), tokens.skip(1)),
        Some(TokenView::Null) => accept(ValueView::Null, tokens.skip(1)),
        Some(TokenView::Boolean(b)) => accept(ValueView::Boolean(b), tokens.skip(1)),
        Some(TokenView::Keyword(keyword)) => match temporal_kind(keyword) {
            Some(kind) => temporal_literal(kind, tokens.skip(1)),
            None => reject(ParseError::UnrecognizedValue, tokens),
        },
        _ => reject(ParseError::UnrecognizedValue, tokens),
    }
}

/// `column_list`: one or more identifiers, separated by commas. After a comma
/// another identifier is required.
pub open spec fn column_list(tokens: Seq<TokenView>) -> Step<Seq<Seq<char>>>
    decreases tokens.len(),
{
    match lookahead(tokens) {
        Some(TokenView::Identifier(name)) => {
            let after = tokens.skip(1);
            if at_token(after, TokenView::Comma) {
                prefixed(seq![name], column_list(after.skip(1)))
            } else {
                accept(seq![name], after)
            }
        },
        _ => reject(ParseError::StructuralMismatch(Expected::ColumnName), tokens),
    }
}

/// `value_list`: one or more values, separated by commas. White-space tokens
/// before and after a value are passed over. After a comma another value is
/// required.
pub open spec fn value_list(tokens: Seq<TokenView>) -> Step<Seq<ValueView>>
    decreases tokens.len(),
    via value_list_terminates
{
    let first = value(skip_blanks(tokens));
    match first.outcome {
        Ok(item) => {
            let after = skip_blanks(first.rest);
            if at_token(after, TokenView::Comma) {
                prefixed(seq![item], value_list(after.skip(1)))
            } else {
                accept(seq![item], after)
            }
        },
        Err(error) => reject(error, first.rest),
    }
}

#[via_fn]
proof fn value_list_terminates(tokens: Seq<TokenView>) {
    lemma_skip_blanks_shortens(tokens);
    lemma_skip_blanks_shortens(value(skip_blanks(tokens)).rest);
}

/// Passing over white-space tokens leaves no more tokens than there were.
pub proof fn lemma_skip_blanks_shortens(tokens: Seq<TokenView>)
    ensures
        skip_blanks(tokens).len() <= tokens.len(),
    decreases tokens.len(),
{
    if lookahead(tokens) matches Some(TokenView::Whitespace(_)) {
        lemma_skip_blanks_shortens(tokens.skip(1));
    }
}

/// `insert_stmt`: the whole statement. The semicolon at its end is read if it
/// is there. Tokens after the statement are left unread.
pub open spec fn insert_statement(tokens: Seq<TokenView>) -> Step<QueryView> {
    if !at_keyword(tokens, "INSERT"@) {
        reject(ParseError::StructuralMismatch(Expected::InsertKeyword), tokens)
    } else if !at_keyword(tokens.skip(1), "INTO"@) {
        reject(ParseError::StructuralMismatch(Expected::IntoKeyword), tokens.skip(1))
    } else {
        match lookahead(tokens.skip(2)) {
            Some(TokenView::Identifier(table)) => columns_clause(table, tokens.skip(3)),
            _ => reject(ParseError::StructuralMismatch(Expected::TableName), tokens.skip(2)),
        }
    }
}

/// What follows the table name: `(` and the column list, then the rest of
/// the statement.
pub open spec fn columns_clause(table: Seq<char>, tokens: Seq<TokenView>) -> Step<QueryView> {
    if !at_token(tokens, TokenView::LeftParen) {
        reject(ParseError::StructuralMismatch(Expected::LeftParen), tokens)
    } else {
        let columns = column_list(tokens.skip(1));
        match columns.outcome {
            Ok(names) => values_clause(table, names, columns.rest),
            Err(error) => reject(error, columns.rest),
        }
    }
}

/// What follows the column list: `)`, `VALUES`, `(` and the value list, then
/// the end of the statement.
pub open spec fn values_clause(
    table: Seq<char>,
    columns: Seq<Seq<char>>,
    tokens: Seq<TokenView>,
) -> Step<QueryView> {
    if !at_token(tokens, TokenView::RightParen) {
        reject(ParseError::StructuralMismatch(Expected::RightParen), tokens)
    } else if !at_keyword(tokens.skip(1), "VALUES"@) {
        reject(ParseError::StructuralMismatch(Expected::ValuesKeyword), tokens.skip(1))
    } else if !at_token(tokens.skip(2), TokenView::LeftParen) {
        reject(ParseError::StructuralMismatch(Expected::LeftParen), tokens.skip(2))
    } else {
        let values = value_list(tokens.skip(3));
        match values.outcome {
            Ok(items) => closing(InsertView { table, columns, values: items }, values.rest),
            Err(error) => reject(error, values.rest),
        }
    }
}

/// The end of the statement: `)`, and a semicolon if one follows.
pub open spec fn closing(insert: InsertView, tokens: Seq<TokenView>) -> Step<QueryView> {
    if !at_token(tokens, TokenView::RightParen) {
        reject(ParseError::StructuralMismatch(Expected::RightParen), tokens)
    } else if at_token(tokens.skip(1), TokenView::SemiColon) {
        accept(QueryView::Insert(insert), tokens.skip(2))
    } else {
        accept(QueryView::Insert(insert), tokens.skip(1))
    }
}

/// A statement: an `INSERT` statement where the next token is the keyword
/// `INSERT`, and unsupported otherwise.
pub open spec fn statement(tokens: Seq<TokenView>) -> Step<QueryView> {
    if at_keyword(tokens, "INSERT"@) {
        insert_statement(tokens)
    } else {
        reject(ParseError::UnsupportedStatement, tokens)
    }
}

} // verus!
