//! How the productions of the grammar read the tokens that spell them, what
//! tokens they were spelled by where they succeed, and what they leave over.

use crate::ast::{InsertView, QueryView, ValueView};
use crate::error::Temporal;
use crate::grammar::{
    accept, at_keyword, at_token, closing, column_list, columns_clause, insert_statement,
    lookahead, prefixed, reject, skip_blanks, statement, temporal_kind, value, value_list,
    values_clause, Step,
};
use crate::spelling::{
    all_lexical, closing_tokens, column_list_tokens, insert_head_tokens, insert_middle_tokens,
    insert_tokens, is_lexical, value_list_tokens, value_tokens,
};
use crate::text::{ascii_lowercase, eq_ignoring_ascii_case};
use crate::token::TokenView;
use vstd::prelude::*;
use vstd::seq_lib::lemma_concat_associative;

verus! {

/// Each keyword of a temporal literal introduces its own kind and no other.
pub proof fn lemma_temporal_keywords(kind: Temporal)
    ensures
        temporal_kind(kind.keyword()) == Some(kind),
{
    reveal_strlit("DATE");
    reveal_strlit("TIME");
    reveal_strlit("TIMESTAMP");
    reveal_strlit("INTERVAL");
    let date = ascii_lowercase("DATE"@);
    let time = ascii_lowercase("TIME"@);
    let timestamp = ascii_lowercase("TIMESTAMP"@);
    let interval = ascii_lowercase("INTERVAL"@);
    assert(date[0] == 'd' && time[0] == 't' && timestamp[0] == 't' && interval[0] == 'i');
    assert(time.len() == 4 && timestamp.len() == 9);
}

/// Among the keywords that the lexer hands out, only a word itself equals it
/// up to the case of ASCII letters.
pub proof fn lemma_lexical_keywords_are_exact(word: Seq<char>, other: Seq<char>)
    requires
        is_lexical(TokenView::Keyword(word)),
        is_lexical(TokenView::Keyword(other)),
        eq_ignoring_ascii_case(word, other),
    ensures
        word == other,
{
    reveal_strlit("INSERT");
    reveal_strlit("INTO");
    reveal_strlit("VALUES");
    reveal_strlit("DATE");
    reveal_strlit("TIME");
    reveal_strlit("TIMESTAMP");
    reveal_strlit("INTERVAL");
    let a = ascii_lowercase(word);
    let b = ascii_lowercase(other);
    assert(a.len() == word.len() && b.len() == other.len());
    assert(a[0] == b[0]);
    assert(a[2] == b[2]);
}

/// A suffix of lexical tokens is lexical.
pub proof fn lemma_lexical_suffix(tokens: Seq<TokenView>, n: int)
    requires
        all_lexical(tokens),
        0 <= n <= tokens.len(),
    ensures
        all_lexical(tokens.skip(n)),
{
    assert forall|i: int| 0 <= i < tokens.skip(n).len() implies is_lexical(
        #[trigger] tokens.skip(n)[i],
    ) by {
        assert(tokens.skip(n)[i] == tokens[i + n]);
    }
}

/// The tokens of a value, read as a value, give that value and leave what
/// follows them.
pub proof fn lemma_value_of_tokens(item: ValueView, tail: Seq<TokenView>)
    ensures
        value(value_tokens(item) + tail) == accept(item, tail),
        !(lookahead(value_tokens(item) + tail) matches Some(TokenView::Whitespace(_))),
{
    let tokens = value_tokens(item) + tail;
    match item {
        ValueView::Date(_) => {
            lemma_temporal_keywords(Temporal::Date);
            assert(tokens.skip(1).skip(1) == tail);
        },
        ValueView::Time(_) => {
            lemma_temporal_keywords(Temporal::Time);
            assert(tokens.skip(1).skip(1) == tail);
        },
        ValueView::Timestamp(_) => {
            lemma_temporal_keywords(Temporal::Timestamp);
            assert(tokens.skip(1).skip(1) == tail);
        },
        ValueView::Interval(_) => {
            lemma_temporal_keywords(Temporal::Interval);
            assert(tokens.skip(1).skip(1) == tail);
        },
        _ => {
            assert(tokens.skip(1) == tail);
        },
    }
}

/// The tokens of a list of names, read as a column list: the names are read,
/// and the list goes on exactly where a comma follows them.
pub proof fn lemma_column_list_of_tokens(names: Seq<Seq<char>>, tail: Seq<TokenView>)
    requires
        names.len() > 0,
    ensures
        column_list(column_list_tokens(names) + tail) == if at_token(tail, TokenView::Comma) {
            prefixed(names, column_list(tail.skip(1)))
        } else {
            accept(names, tail)
        },
    decreases names.len(),
{
    let tokens = column_list_tokens(names) + tail;
    if names.len() == 1 {
        assert(tokens.skip(1) == tail);
        assert(names == seq![names[0]]);
    } else {
        let more = names.skip(1);
        assert(tokens.skip(1).skip(1) == column_list_tokens(more) + tail);
        assert(tokens.skip(1)[0] == TokenView::Comma);
        lemma_column_list_of_tokens(more, tail);
        assert(seq![names[0]] + more == names);
        if at_token(tail, TokenView::Comma) {
            let last = column_list(tail.skip(1));
            if last.outcome is Ok {
                assert(seq![names[0]] + (more + last.outcome->Ok_0) == names + last.outcome->Ok_0);
            }
        }
    }
}

/// The tokens of a list of values, read as a value list: the values are read,
/// white-space tokens after them are passed over, and the list goes on
/// exactly where a comma follows.
pub proof fn lemma_value_list_of_tokens(items: Seq<ValueView>, tail: Seq<TokenView>)
    requires
        items.len() > 0,
    ensures
        value_list(value_list_tokens(items) + tail) == if at_token(
            skip_blanks(tail),
            TokenView::Comma,
        ) {
            prefixed(items, value_list(skip_blanks(tail).skip(1)))
        } else {
            accept(items, skip_blanks(tail))
        },
    decreases items.len(),
{
    let tokens = value_list_tokens(items) + tail;
    if items.len() == 1 {
        lemma_value_of_tokens(items[0], tail);
        assert(items == seq![items[0]]);
    } else {
        let more = items.skip(1);
        let after = seq![TokenView::Comma] + value_list_tokens(more) + tail;
        assert(tokens == value_tokens(items[0]) + after);
        lemma_value_of_tokens(items[0], after);
        assert(skip_blanks(after) == after);
        assert(after.skip(1) == value_list_tokens(more) + tail);
        lemma_value_list_of_tokens(more, tail);
        assert(seq![items[0]] + more == items);
        if at_token(skip_blanks(tail), TokenView::Comma) {
            let last = value_list(skip_blanks(tail).skip(1));
            if last.outcome is Ok {
                assert(seq![items[0]] + (more + last.outcome->Ok_0) == items + last.outcome->Ok_0);
            }
        }
    }
}

/// A value that is read from lexical tokens was spelled by the tokens at the
/// front.
pub proof fn lemma_value_was_spelled(tokens: Seq<TokenView>)
    requires
        all_lexical(tokens),
    ensures
        value(tokens).outcome matches Ok(item) ==> tokens == value_tokens(item) + value(
            tokens,
        ).rest,
{
    if tokens.len() > 0 {
        let after = tokens.skip(1);
        assert(is_lexical(tokens[0]));
        assert(tokens == seq![tokens[0]] + after);
        match tokens[0] {
            TokenView::Keyword(word) => {
                match temporal_kind(word) {
                    Some(kind) => {
                        lemma_temporal_keywords(kind);
                        lemma_lexical_keywords_are_exact(word, kind.keyword());
                        if lookahead(after) matches Some(TokenView::StringLiteral(_)) {
                            assert(tokens == seq![tokens[0], after[0]] + after.skip(1));
                        }
                    },
                    None => {},
                }
            },
            _ => {},
        }
    }
}

/// A column list that is read was spelled by the tokens at the front, and no
/// comma follows it.
pub proof fn lemma_column_list_was_spelled(tokens: Seq<TokenView>)
    ensures
        column_list(tokens).outcome matches Ok(names) ==> {
            &&& tokens == column_list_tokens(names) + column_list(tokens).rest
            &&& !at_token(column_list(tokens).rest, TokenView::Comma)
        },
    decreases tokens.len(),
{
    match lookahead(tokens) {
        Some(TokenView::Identifier(name)) => {
            let after = tokens.skip(1);
            if at_token(after, TokenView::Comma) {
                let next = after.skip(1);
                lemma_column_list_was_spelled(next);
                lemma_column_list_is_not_empty(next);
                match column_list(next).outcome {
                    Ok(more) => {
                        let spelled = seq![TokenView::Identifier(name), TokenView::Comma];
                        lemma_column_list_tokens_of_more(name, more);
                        assert(tokens == spelled + next);
                        lemma_concat_associative(
                            spelled,
                            column_list_tokens(more),
                            column_list(next).rest,
                        );
                    },
                    Err(_) => {},
                }
            } else {
                assert(tokens == seq![TokenView::Identifier(name)] + after);
            }
        },
        _ => {},
    }
}

/// Lexical tokens have no white-space token at their front.
pub proof fn lemma_lexical_tokens_have_no_blanks(tokens: Seq<TokenView>)
    requires
        all_lexical(tokens),
    ensures
        skip_blanks(tokens) == tokens,
{
    if tokens.len() > 0 {
        assert(is_lexical(tokens[0]));
    }
}

/// The tokens that spell a value followed by more values.
pub proof fn lemma_value_list_tokens_of_more(item: ValueView, more: Seq<ValueView>)
    requires
        more.len() > 0,
    ensures
        value_list_tokens(seq![item] + more) == value_tokens(item) + seq![TokenView::Comma]
            + value_list_tokens(more),
{
    assert((seq![item] + more).skip(1) == more);
}

/// The tokens that spell a name followed by more names.
pub proof fn lemma_column_list_tokens_of_more(name: Seq<char>, more: Seq<Seq<char>>)
    requires
        more.len() > 0,
    ensures
        column_list_tokens(seq![name] + more) == seq![
            TokenView::Identifier(name),
            TokenView::Comma,
        ] + column_list_tokens(more),
{
    assert((seq![name] + more).skip(1) == more);
}

/// A value list that is read from lexical tokens was spelled by the tokens at
/// the front, and no comma follows it.
pub proof fn lemma_value_list_was_spelled(tokens: Seq<TokenView>)
    requires
        all_lexical(tokens),
    ensures
        value_list(tokens).outcome matches Ok(items) ==> {
            &&& tokens == value_list_tokens(items) + value_list(tokens).rest
            &&& !at_token(value_list(tokens).rest, TokenView::Comma)
        },
    decreases tokens.len(),
{
    let first = value(tokens);
    lemma_lexical_tokens_have_no_blanks(tokens);
    lemma_value_was_spelled(tokens);
    lemma_value_leaves_a_suffix(tokens);
    lemma_lexical_suffix(tokens, tokens.len() - first.rest.len());
    lemma_lexical_tokens_have_no_blanks(first.rest);
    match first.outcome {
        Ok(item) => {
            if at_token(first.rest, TokenView::Comma) {
                let next = first.rest.skip(1);
                let list = value_list(next);
                lemma_lexical_suffix(first.rest, 1);
                lemma_value_list_was_spelled(next);
                lemma_value_list_is_not_empty(next);
                assert(value_list(tokens) == prefixed(seq![item], list));
                match list.outcome {
                    Ok(more) => {
                        let spelled = value_tokens(item);
                        let comma = seq![TokenView::Comma];
                        lemma_value_list_tokens_of_more(item, more);
                        assert(first.rest == comma + next);
                        lemma_concat_associative(spelled, comma, next);
                        lemma_concat_associative(
                            spelled + comma,
                            value_list_tokens(more),
                            list.rest,
                        );
                    },
                    Err(_) => {},
                }
            } else {
                assert(value_list(tokens) == accept(seq![item], first.rest));
            }
        },
        Err(_) => {},
    }
}

/// A column list that is read holds at least one name.
pub proof fn lemma_column_list_is_not_empty(tokens: Seq<TokenView>)
    ensures
        column_list(tokens).outcome matches Ok(names) ==> names.len() > 0,
{
}

/// A value list that is read holds at least one value.
pub proof fn lemma_value_list_is_not_empty(tokens: Seq<TokenView>)
    ensures
        value_list(tokens).outcome matches Ok(items) ==> items.len() > 0,
{
}

/// One production is read from the front of the tokens: what is left over is
/// the tokens without some of their first.
pub open spec fn leaves_a_suffix<T>(tokens: Seq<TokenView>, step: Step<T>) -> bool {
    step.rest.len() <= tokens.len() && step.rest == tokens.skip(tokens.len() - step.rest.len())
}

/// A suffix of a suffix is a suffix.
pub proof fn lemma_suffix_of_suffix(
    tokens: Seq<TokenView>,
    middle: Seq<TokenView>,
    rest: Seq<TokenView>,
)
    requires
        middle.len() <= tokens.len(),
        middle == tokens.skip(tokens.len() - middle.len()),
        rest.len() <= middle.len(),
        rest == middle.skip(middle.len() - rest.len()),
    ensures
        rest.len() <= tokens.len(),
        rest == tokens.skip(tokens.len() - rest.len()),
{
    let a = tokens.len() - middle.len();
    let b = middle.len() - rest.len();
    assert(tokens.skip(a).skip(b) == tokens.skip(a + b));
}

/// Passing over white-space tokens leaves a suffix.
pub proof fn lemma_skip_blanks_is_a_suffix(tokens: Seq<TokenView>)
    ensures
        skip_blanks(tokens).len() <= tokens.len(),
        skip_blanks(tokens) == tokens.skip(tokens.len() - skip_blanks(tokens).len()),
    decreases tokens.len(),
{
    if lookahead(tokens) matches Some(TokenView::Whitespace(_)) {
        let after = tokens.skip(1);
        lemma_skip_blanks_is_a_suffix(after);
        let k = after.len() - skip_blanks(after).len();
        assert(after.skip(k) == tokens.skip(k + 1));
    } else {
        assert(tokens.skip(0) == tokens);
    }
}

/// Reading a value leaves a suffix.
pub proof fn lemma_value_leaves_a_suffix(tokens: Seq<TokenView>)
    ensures
        leaves_a_suffix(tokens, value(tokens)),
{
    assert(tokens.skip(0) == tokens);
    if tokens.len() > 0 {
        assert(tokens.skip(1).skip(0) == tokens.skip(1));
        if tokens.len() > 1 {
            assert(tokens.skip(1).skip(1) == tokens.skip(2));
        }
    }
}

/// Reading a column list leaves a suffix.
pub proof fn lemma_column_list_leaves_a_suffix(tokens: Seq<TokenView>)
    ensures
        leaves_a_suffix(tokens, column_list(tokens)),
    decreases tokens.len(),
{
    assert(tokens.skip(0) == tokens);
    if lookahead(tokens) matches Some(TokenView::Identifier(_)) {
        let after = tokens.skip(1);
        if at_token(after, TokenView::Comma) {
            let next = after.skip(1);
            assert(next == tokens.skip(2));
            lemma_column_list_leaves_a_suffix(next);
            lemma_suffix_of_suffix(tokens, next, column_list(next).rest);
        }
    }
}

/// Reading a value list leaves a suffix.
pub proof fn lemma_value_list_leaves_a_suffix(tokens: Seq<TokenView>)
    ensures
        leaves_a_suffix(tokens, value_list(tokens)),
    decreases tokens.len(),
{
    let start = skip_blanks(tokens);
    lemma_skip_blanks_is_a_suffix(tokens);
    let first = value(start);
    lemma_value_leaves_a_suffix(start);
    lemma_suffix_of_suffix(tokens, start, first.rest);
    if first.outcome is Ok {
        let after = skip_blanks(first.rest);
        lemma_skip_blanks_is_a_suffix(first.rest);
        lemma_suffix_of_suffix(tokens, first.rest, after);
        if at_token(after, TokenView::Comma) {
            let next = after.skip(1);
            assert(next.len() <= after.len() && next == after.skip(after.len() - next.len()));
            lemma_suffix_of_suffix(tokens, after, next);
            lemma_value_list_leaves_a_suffix(next);
            lemma_suffix_of_suffix(tokens, next, value_list(next).rest);
        }
    }
}

/// Reading the end of a statement leaves a suffix.
pub proof fn lemma_closing_leaves_a_suffix(insert: InsertView, tokens: Seq<TokenView>)
    ensures
        leaves_a_suffix(tokens, closing(insert, tokens)),
{
    assert(tokens.skip(0) == tokens);
    if at_token(tokens, TokenView::RightParen) && at_token(tokens.skip(1), TokenView::SemiColon) {
        assert(tokens.skip(1).skip(1) == tokens.skip(2));
    }
}

/// Reading what follows the column list leaves a suffix.
pub proof fn lemma_values_clause_leaves_a_suffix(
    table: Seq<char>,
    columns: Seq<Seq<char>>,
    tokens: Seq<TokenView>,
)
    ensures
        leaves_a_suffix(tokens, values_clause(table, columns, tokens)),
{
    assert(tokens.skip(0) == tokens);
    if at_token(tokens, TokenView::RightParen) && at_keyword(tokens.skip(1), "VALUES"@)
        && at_token(tokens.skip(2), TokenView::LeftParen) {
        let inner = tokens.skip(3);
        let values = value_list(inner);
        lemma_value_list_leaves_a_suffix(inner);
        lemma_suffix_of_suffix(tokens, inner, values.rest);
        match values.outcome {
            Ok(items) => {
                let insert = InsertView { table, columns, values: items };
                lemma_closing_leaves_a_suffix(insert, values.rest);
                lemma_suffix_of_suffix(tokens, values.rest, closing(insert, values.rest).rest);
            },
            Err(_) => {},
        }
    }
}

/// Reading what follows the table name leaves a suffix.
pub proof fn lemma_columns_clause_leaves_a_suffix(table: Seq<char>, tokens: Seq<TokenView>)
    ensures
        leaves_a_suffix(tokens, columns_clause(table, tokens)),
{
    assert(tokens.skip(0) == tokens);
    if at_token(tokens, TokenView::LeftParen) {
        let inner = tokens.skip(1);
        let columns = column_list(inner);
        lemma_column_list_leaves_a_suffix(inner);
        lemma_suffix_of_suffix(tokens, inner, columns.rest);
        match columns.outcome {
            Ok(names) => {
                lemma_values_clause_leaves_a_suffix(table, names, columns.rest);
                lemma_suffix_of_suffix(
                    tokens,
                    columns.rest,
                    values_clause(table, names, columns.rest).rest,
                );
            },
            Err(_) => {},
        }
    }
}

/// The tokens up to the parenthesis that opens the column list are read, and
/// the column list is read next.
pub proof fn lemma_head_is_read(table: Seq<char>, tail: Seq<TokenView>)
    ensures
        statement(insert_head_tokens(table) + tail) == insert_statement(
            insert_head_tokens(table) + tail,
        ),
        insert_statement(insert_head_tokens(table) + tail) == match column_list(tail).outcome {
            Ok(names) => values_clause(table, names, column_list(tail).rest),
            Err(error) => reject(error, column_list(tail).rest),
        },
{
    let tokens = insert_head_tokens(table) + tail;
    assert(tokens.skip(3).skip(1) == tail);
}

/// The tokens between the two lists are read, and the value list is read
/// next.
pub proof fn lemma_middle_is_read(table: Seq<char>, columns: Seq<Seq<char>>, tail: Seq<TokenView>)
    ensures
        values_clause(table, columns, insert_middle_tokens() + tail) == match value_list(
            tail,
        ).outcome {
            Ok(items) => closing(
                InsertView { table, columns, values: items },
                value_list(tail).rest,
            ),
            Err(error) => reject(error, value_list(tail).rest),
        },
{
    let tokens = insert_middle_tokens() + tail;
    assert(tokens.skip(3) == tail);
}

/// The tokens at the end of a statement are read. Without a semicolon of
/// their own they must not be followed by one, which would be read too.
pub proof fn lemma_closing_is_read(insert: InsertView, semicolon: bool, rest: Seq<TokenView>)
    requires
        semicolon || !at_token(rest, TokenView::SemiColon),
    ensures
        closing(insert, closing_tokens(semicolon) + rest) == accept(
            QueryView::Insert(insert),
            rest,
        ),
{
    let tokens = closing_tokens(semicolon) + rest;
    if semicolon {
        assert(tokens.skip(2) == rest);
    } else {
        assert(tokens.skip(1) == rest);
    }
}

/// The tokens that spell a statement, followed by more, taken clause by
/// clause.
pub proof fn lemma_insert_tokens_by_clause(
    insert: InsertView,
    semicolon: bool,
    rest: Seq<TokenView>,
)
    ensures
        insert_tokens(insert, semicolon) + rest == insert_head_tokens(insert.table) + (
        column_list_tokens(insert.columns) + (insert_middle_tokens() + (value_list_tokens(
            insert.values,
        ) + (closing_tokens(semicolon) + rest)))),
{
    let head = insert_head_tokens(insert.table);
    let columns = column_list_tokens(insert.columns);
    let middle = insert_middle_tokens();
    let values = value_list_tokens(insert.values);
    let end = closing_tokens(semicolon);
    lemma_concat_associative(head + columns + middle + values, end, rest);
    lemma_concat_associative(head + columns + middle, values, end + rest);
    lemma_concat_associative(head + columns, middle, values + (end + rest));
    lemma_concat_associative(head, columns, middle + (values + (end + rest)));
}

/// Lexical tokens that are read as far as the parenthesis that opens the
/// column list begin with the tokens that spell that much.
pub proof fn lemma_head_was_spelled(tokens: Seq<TokenView>)
    requires
        all_lexical(tokens),
        at_keyword(tokens, "INSERT"@),
        at_keyword(tokens.skip(1), "INTO"@),
        lookahead(tokens.skip(2)) matches Some(TokenView::Identifier(_)),
        at_token(tokens.skip(3), TokenView::LeftParen),
    ensures
        tokens == insert_head_tokens(tokens[2]->Identifier_0) + tokens.skip(4),
{
    assert(is_lexical(tokens[0]));
    assert(is_lexical(tokens[1]));
    lemma_lexical_keywords_are_exact(tokens[0]->Keyword_0, "INSERT"@);
    lemma_lexical_keywords_are_exact(tokens[1]->Keyword_0, "INTO"@);
}

/// Lexical tokens that are read from the end of the column list to the
/// parenthesis that opens the value list begin with the tokens that spell
/// that much.
pub proof fn lemma_middle_was_spelled(tokens: Seq<TokenView>)
    requires
        all_lexical(tokens),
        at_token(tokens, TokenView::RightParen),
        at_keyword(tokens.skip(1), "VALUES"@),
        at_token(tokens.skip(2), TokenView::LeftParen),
    ensures
        tokens == insert_middle_tokens() + tokens.skip(3),
{
    assert(is_lexical(tokens[1]));
    lemma_lexical_keywords_are_exact(tokens[1]->Keyword_0, "VALUES"@);
}

/// Tokens that are read as the end of a statement begin with the tokens that
/// spell it.
pub proof fn lemma_closing_was_spelled(insert: InsertView, tokens: Seq<TokenView>)
    requires
        at_token(tokens, TokenView::RightParen),
    ensures
        tokens == closing_tokens(at_token(tokens.skip(1), TokenView::SemiColon)) + closing(
            insert,
            tokens,
        ).rest,
{
}

} // verus!
