//! What holds of the lexer and the parser for all inputs.

use crate::ast::{InsertView, QueryView, ValueView};
use crate::error::{Expected, ParseError};
use crate::grammar::{
    accept, at_keyword, at_token, column_list, columns_clause, lookahead, reject, skip_blanks,
    statement, value, value_list,
};
use crate::lemmas::{
    leaves_a_suffix, lemma_closing_is_read, lemma_closing_was_spelled,
    lemma_column_list_is_not_empty, lemma_column_list_leaves_a_suffix,
    lemma_column_list_of_tokens, lemma_column_list_was_spelled,
    lemma_columns_clause_leaves_a_suffix, lemma_head_is_read, lemma_head_was_spelled,
    lemma_insert_tokens_by_clause, lemma_lexical_suffix, lemma_middle_is_read,
    lemma_middle_was_spelled, lemma_suffix_of_suffix, lemma_value_list_is_not_empty,
    lemma_value_list_of_tokens, lemma_value_list_was_spelled,
};
use crate::parser::parse_text;
use crate::scan::{lemma_scan_advances, run_end, scan, token_stream, CharClass};
use crate::spelling::{
    all_lexical, closing_tokens, column_list_tokens, insert_head_tokens, insert_middle_tokens,
    insert_tokens, is_lexical, value_list_tokens,
};
use crate::text::unicode_uppercase;
use crate::token::{is_keyword, word_token, TokenView};
use vstd::prelude::*;
use vstd::seq_lib::lemma_concat_associative;

verus! {

/// A statement that is spelled out in full is read, whatever follows it.
///
/// The tokens that follow are left over. Without a semicolon of its own the
/// statement must not be followed by one, which would be read with it.
pub proof fn theorem_insert_parses_before(
    insert: InsertView,
    semicolon: bool,
    rest: Seq<TokenView>,
)
    requires
        insert.columns.len() > 0,
        insert.values.len() > 0,
        semicolon || !at_token(rest, TokenView::SemiColon),
    ensures
        statement(insert_tokens(insert, semicolon) + rest) == accept(
            QueryView::Insert(insert),
            rest,
        ),
{
    let end = closing_tokens(semicolon) + rest;
    let values_on = value_list_tokens(insert.values) + end;
    let middle_on = insert_middle_tokens() + values_on;
    let columns_on = column_list_tokens(insert.columns) + middle_on;
    lemma_insert_tokens_by_clause(insert, semicolon, rest);
    lemma_head_is_read(insert.table, columns_on);
    lemma_column_list_of_tokens(insert.columns, middle_on);
    lemma_middle_is_read(insert.table, insert.columns, values_on);
    lemma_value_list_of_tokens(insert.values, end);
    assert(skip_blanks(end) == end);
    lemma_closing_is_read(insert, semicolon, rest);
}

/// A statement that is spelled out in full parses to itself.
///
/// For every table name, every non-empty list of column names and every
/// non-empty list of values, the tokens `INSERT INTO table ( columns ) VALUES
/// ( values )`, with or without a semicolon after them, are read to their end
/// and give the statement with that table, those columns and those values, in
/// the order written. The numbers of columns and of values are not compared.
pub proof fn theorem_insert_parses(insert: InsertView, semicolon: bool)
    requires
        insert.columns.len() > 0,
        insert.values.len() > 0,
    ensures
        statement(insert_tokens(insert, semicolon)) == accept(
            QueryView::Insert(insert),
            Seq::empty(),
        ),
{
    theorem_insert_parses_before(insert, semicolon, Seq::empty());
    assert(insert_tokens(insert, semicolon) + Seq::<TokenView>::empty() == insert_tokens(
        insert,
        semicolon,
    ));
}

/// A text whose tokens spell a statement in full parses to that statement.
pub proof fn theorem_insert_text_parses(text: Seq<char>, insert: InsertView, semicolon: bool)
    requires
        insert.columns.len() > 0,
        insert.values.len() > 0,
        token_stream(text, 0) == insert_tokens(insert, semicolon),
    ensures
        parse_text(text) == Ok::<QueryView, ParseError>(QueryView::Insert(insert)),
{
    theorem_insert_parses(insert, semicolon);
}

/// A statement that is read from lexical tokens was spelled by them.
///
/// Where tokens that the lexer can hand out are read as a statement, they are
/// the tokens that spell that statement in full, with or without the
/// semicolon, followed by the tokens left over.
pub proof fn theorem_parsed_statement_was_spelled(tokens: Seq<TokenView>)
    requires
        all_lexical(tokens),
    ensures
        statement(tokens).outcome matches Ok(QueryView::Insert(insert)) ==> {
            ||| tokens == insert_tokens(insert, false) + statement(tokens).rest
            ||| tokens == insert_tokens(insert, true) + statement(tokens).rest
        },
{
    match statement(tokens).outcome {
        Ok(QueryView::Insert(insert)) => {
            let after_head = tokens.skip(4);
            lemma_head_was_spelled(tokens);
            assert(tokens.skip(3).skip(1) == after_head);
            lemma_lexical_suffix(tokens, 4);
            let columns = column_list(after_head);
            lemma_column_list_was_spelled(after_head);
            lemma_column_list_leaves_a_suffix(after_head);
            lemma_lexical_suffix(after_head, after_head.len() - columns.rest.len());
            let after_middle = columns.rest.skip(3);
            lemma_middle_was_spelled(columns.rest);
            lemma_lexical_suffix(columns.rest, 3);
            let values = value_list(after_middle);
            lemma_value_list_was_spelled(after_middle);
            lemma_closing_was_spelled(insert, values.rest);
            lemma_insert_tokens_by_clause(
                insert,
                at_token(values.rest.skip(1), TokenView::SemiColon),
                statement(tokens).rest,
            );
        },
        Err(_) => {},
    }
}

/// A text that parses to a statement spelled it.
///
/// Where a text is parsed to a statement, its tokens are those that spell the
/// statement in full, with or without the semicolon, followed by whatever
/// tokens the parser left unread.
pub proof fn theorem_parsed_text_was_spelled(text: Seq<char>)
    ensures
        parse_text(text) matches Ok(QueryView::Insert(insert)) ==> {
            let tokens = token_stream(text, 0);
            let rest = statement(tokens).rest;
            ||| tokens == insert_tokens(insert, false) + rest
            ||| tokens == insert_tokens(insert, true) + rest
        },
{
    theorem_token_stream_is_lexical(text, 0);
    theorem_parsed_statement_was_spelled(token_stream(text, 0));
}

/// The lists that a statement is parsed to are not empty: at least one column
/// is named and at least one value is given.
pub proof fn theorem_parsed_lists_are_not_empty(tokens: Seq<TokenView>)
    ensures
        statement(tokens).outcome matches Ok(QueryView::Insert(insert)) ==> insert.columns.len()
            > 0 && insert.values.len() > 0,
{
    if at_keyword(tokens, "INSERT"@) && at_keyword(tokens.skip(1), "INTO"@) {
        let columns = column_list(tokens.skip(3).skip(1));
        lemma_column_list_is_not_empty(tokens.skip(3).skip(1));
        lemma_value_list_is_not_empty(columns.rest.skip(3));
    }
}

/// The parser never looks back: whether a statement is read or rejected,
/// what is left over is the tokens without some of their first.
pub proof fn theorem_statement_leaves_a_suffix(tokens: Seq<TokenView>)
    ensures
        leaves_a_suffix(tokens, statement(tokens)),
{
    assert(tokens.skip(0) == tokens);
    if at_keyword(tokens, "INSERT"@) && at_keyword(tokens.skip(1), "INTO"@) {
        match lookahead(tokens.skip(2)) {
            Some(TokenView::Identifier(table)) => {
                let after_table = tokens.skip(3);
                lemma_columns_clause_leaves_a_suffix(table, after_table);
                lemma_suffix_of_suffix(
                    tokens,
                    after_table,
                    columns_clause(table, after_table).rest,
                );
            },
            _ => {},
        }
    }
}

/// Tokens that do not begin with the keyword `INSERT` are an unsupported
/// statement, and none of them is read. This holds of no tokens at all.
pub proof fn theorem_unsupported_statement(tokens: Seq<TokenView>)
    requires
        !at_keyword(tokens, "INSERT"@),
    ensures
        statement(tokens) == reject::<QueryView>(ParseError::UnsupportedStatement, tokens),
{
}

/// The empty text is an unsupported statement.
pub proof fn theorem_empty_text_unsupported()
    ensures
        parse_text(Seq::empty()) == Err::<QueryView, ParseError>(ParseError::UnsupportedStatement),
{
    assert(token_stream(Seq::empty(), 0) == Seq::<TokenView>::empty());
}

/// A column list that is not closed is rejected for want of `)`.
///
/// Where the column names are followed by anything but a comma or a closing
/// parenthesis, or by nothing, the statement fails at that point with a
/// structural mismatch that names the closing parenthesis.
pub proof fn theorem_unclosed_column_list(
    table: Seq<char>,
    columns: Seq<Seq<char>>,
    tail: Seq<TokenView>,
)
    requires
        columns.len() > 0,
        !at_token(tail, TokenView::Comma),
        !at_token(tail, TokenView::RightParen),
    ensures
        statement(insert_head_tokens(table) + column_list_tokens(columns) + tail) == reject::<
            QueryView,
        >(ParseError::StructuralMismatch(Expected::RightParen), tail),
{
    lemma_concat_associative(insert_head_tokens(table), column_list_tokens(columns), tail);
    lemma_head_is_read(table, column_list_tokens(columns) + tail);
    lemma_column_list_of_tokens(columns, tail);
}

/// A value list that is not closed is rejected for want of `)`.
pub proof fn theorem_unclosed_value_list(insert: InsertView, tail: Seq<TokenView>)
    requires
        insert.columns.len() > 0,
        insert.values.len() > 0,
        !at_token(skip_blanks(tail), TokenView::Comma),
        !at_token(skip_blanks(tail), TokenView::RightParen),
    ensures
        statement(
            insert_head_tokens(insert.table) + column_list_tokens(insert.columns)
                + insert_middle_tokens() + value_list_tokens(insert.values) + tail,
        ) == reject::<QueryView>(
            ParseError::StructuralMismatch(Expected::RightParen),
            skip_blanks(tail),
        ),
{
    let head = insert_head_tokens(insert.table);
    let columns = column_list_tokens(insert.columns);
    let middle = insert_middle_tokens();
    let values = value_list_tokens(insert.values);
    lemma_concat_associative(head + columns + middle, values, tail);
    lemma_concat_associative(head + columns, middle, values + tail);
    lemma_concat_associative(head, columns, middle + (values + tail));
    lemma_head_is_read(insert.table, columns + (middle + (values + tail)));
    lemma_column_list_of_tokens(insert.columns, middle + (values + tail));
    lemma_middle_is_read(insert.table, insert.columns, values + tail);
    lemma_value_list_of_tokens(insert.values, tail);
}

/// A comma after the last column name is rejected.
///
/// Where the comma is followed by anything but an identifier, as by the
/// closing parenthesis, the statement fails there for want of a column name:
/// no empty column is accepted.
pub proof fn theorem_trailing_comma_in_columns(
    table: Seq<char>,
    columns: Seq<Seq<char>>,
    tail: Seq<TokenView>,
)
    requires
        columns.len() > 0,
        !(lookahead(tail) matches Some(TokenView::Identifier(_))),
    ensures
        statement(
            insert_head_tokens(table) + column_list_tokens(columns) + seq![TokenView::Comma]
                + tail,
        ) == reject::<QueryView>(ParseError::StructuralMismatch(Expected::ColumnName), tail),
{
    let head = insert_head_tokens(table);
    let names = column_list_tokens(columns);
    let after = seq![TokenView::Comma] + tail;
    lemma_concat_associative(head + names, seq![TokenView::Comma], tail);
    lemma_concat_associative(head, names, after);
    lemma_head_is_read(table, names + after);
    lemma_column_list_of_tokens(columns, after);
    assert(after.skip(1) == tail);
}

/// A comma after the last value is rejected.
///
/// Where the comma is followed by tokens that start no value, as by the
/// closing parenthesis, the statement fails as reading a value there fails:
/// no empty value is accepted.
pub proof fn theorem_trailing_comma_in_values(insert: InsertView, tail: Seq<TokenView>)
    requires
        insert.columns.len() > 0,
        insert.values.len() > 0,
        value(skip_blanks(tail)).outcome is Err,
    ensures
        statement(
            insert_head_tokens(insert.table) + column_list_tokens(insert.columns)
                + insert_middle_tokens() + value_list_tokens(insert.values)
                + seq![TokenView::Comma] + tail,
        ) == reject::<QueryView>(
            value(skip_blanks(tail)).outcome->Err_0,
            value(skip_blanks(tail)).rest,
        ),
        at_token(tail, TokenView::RightParen) ==> value(skip_blanks(tail)) == reject::<ValueView>(
            ParseError::UnrecognizedValue,
            tail,
        ),
{
    let head = insert_head_tokens(insert.table);
    let columns = column_list_tokens(insert.columns);
    let middle = insert_middle_tokens();
    let values = value_list_tokens(insert.values);
    let after = seq![TokenView::Comma] + tail;
    lemma_concat_associative(head + columns + middle + values, seq![TokenView::Comma], tail);
    lemma_concat_associative(head + columns + middle, values, after);
    lemma_concat_associative(head + columns, middle, values + after);
    lemma_concat_associative(head, columns, middle + (values + after));
    lemma_head_is_read(insert.table, columns + (middle + (values + after)));
    lemma_column_list_of_tokens(insert.columns, middle + (values + after));
    lemma_middle_is_read(insert.table, insert.columns, values + after);
    lemma_value_list_of_tokens(insert.values, after);
    assert(skip_blanks(after) == after);
    assert(after.skip(1) == tail);
}

/// Every token that the lexer hands out is lexical.
pub proof fn theorem_scanned_token_is_lexical(text: Seq<char>, from: int)
    ensures
        scan(text, from).token matches Some(token) ==> is_lexical(token),
{
}

/// The tokens of a text are lexical, all of them.
pub proof fn theorem_token_stream_is_lexical(text: Seq<char>, from: int)
    ensures
        all_lexical(token_stream(text, from)),
    decreases text.len() - from,
{
    let step = scan(text, from);
    if step.token is Some {
        theorem_scanned_token_is_lexical(text, from);
        if from >= 0 {
            lemma_scan_advances(text, from);
            theorem_token_stream_is_lexical(text, step.next);
        } else {
            assert(run_end(text, from, CharClass::Whitespace) == from);
        }
    }
}

/// Whether a word is reserved, and which token a reserved word gives, depends
/// on the word only through its upper-case form: reserved words are matched
/// without regard to case.
pub proof fn theorem_reserved_words_ignore_case(a: Seq<char>, b: Seq<char>)
    requires
        unicode_uppercase(a) == unicode_uppercase(b),
    ensures
        is_keyword(a) == is_keyword(b),
        is_keyword(a) ==> word_token(a) == word_token(b),
{
}

/// A word that is not reserved is an identifier and keeps the case it was
/// written in.
pub proof fn theorem_identifiers_keep_their_text(word: Seq<char>)
    requires
        !is_keyword(word),
    ensures
        word_token(word) == TokenView::Identifier(word),
{
}

/// A reserved word gives the token of its upper-case form: `NULL` the null
/// marker, `TRUE` and `FALSE` the booleans, and each of the others a keyword
/// that carries the upper-case form.
pub proof fn theorem_reserved_words(word: Seq<char>)
    requires
        is_keyword(word),
    ensures
        unicode_uppercase(word) == "NULL"@ ==> word_token(word) == TokenView::Null,
        unicode_uppercase(word) == "TRUE"@ ==> word_token(word) == TokenView::Boolean(true),
        unicode_uppercase(word) == "FALSE"@ ==> word_token(word) == TokenView::Boolean(false),
        unicode_uppercase(word) != "NULL"@ && unicode_uppercase(word) != "TRUE"@
            && unicode_uppercase(word) != "FALSE"@ ==> word_token(word) == TokenView::Keyword(
            unicode_uppercase(word),
        ),
{
    reveal_strlit("NULL");
    reveal_strlit("TRUE");
    reveal_strlit("FALSE");
    assert("NULL"@[0] != "TRUE"@[0]);
    assert("NULL"@.len() != "FALSE"@.len());
    assert("TRUE"@.len() != "FALSE"@.len());
}

} // verus!
