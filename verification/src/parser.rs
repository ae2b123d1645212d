//! The parser: reads the tokens of a text, one token of lookahead at a time,
//! and builds the statement they spell.

use crate::ast::{names_view, values_view, Insert, InsertView, Query, QueryView, Value};
use crate::error::{Expected, ParseError, Temporal};
use crate::grammar::{
    at_keyword, at_token, closing, column_list, columns_clause, insert_statement,
    lemma_skip_blanks_shortens, lookahead, prefixed, skip_blanks, statement, temporal_kind,
    temporal_literal, value, value_list, values_clause,
};
pub use crate::lexer::Lexer;
use crate::scan::token_stream;
pub use crate::token::Token;
use crate::token::{optional_view, same_token, TokenView};
use vstd::prelude::*;

verus! {

/// A parser over the tokens of one text.
///
/// The parser owns the lexer and the one token it has read ahead. That token
/// is always the first one after everything already built into the statement.
pub struct Parser<'a> {
    lexer: Lexer<'a>,
    current_token: Option<Token>,
}

/// The outcome of parsing a statement, with the statement taken by its value.
pub open spec fn outcome_view(result: Result<Query, ParseError>) -> Result<QueryView, ParseError> {
    match result {
        Ok(query) => Ok(query@),
        Err(error) => Err(error),
    }
}

/// What parsing a whole text gives: the outcome of reading one statement from
/// the front of its tokens.
pub open spec fn parse_text(text: Seq<char>) -> Result<QueryView, ParseError> {
    statement(token_stream(text, 0)).outcome
}

impl<'a> Parser<'a> {
    /// The lexer is well formed.
    pub closed spec fn wf(&self) -> bool {
        self.lexer.wf()
    }

    /// The tokens still to be read: the lookahead first, then those that the
    /// lexer will hand out. Without a lookahead there are none.
    pub closed spec fn pending(&self) -> Seq<TokenView> {
        match self.current_token {
            Some(token) => seq![token@] + token_stream(self.lexer.text(), self.lexer.offset()),
            None => Seq::empty(),
        }
    }

    /// Creates a parser for `input` and reads the first token ahead. This
    /// never fails.
    pub fn new(input: &'a str) -> (parser: Result<Self, String>)
        ensures
            parser matches Ok(p) && p.wf() && p.pending() == token_stream(input@, 0),
    {
        let mut lexer = Lexer::new(input);
        let first_token = lexer.next_token();
        Ok(Parser { lexer, current_token: first_token })
    }

    /// Advances to the next token.
    fn next_token(&mut self)
        requires
            old(self).wf(),
            old(self).pending().len() > 0,
        ensures
            final(self).wf(),
            final(self).pending() == old(self).pending().skip(1),
    {
        self.current_token = self.lexer.next_token();
    }

    /// The lookahead is the first of the pending tokens.
    proof fn lemma_lookahead(&self)
        ensures
            optional_view(self.current_token) == lookahead(self.pending()),
    {
    }

    /// Matches and consumes the current token if it is `token`.
    fn match_token(&mut self, token: &Token) -> (matched: bool)
        requires
            old(self).wf(),
        ensures
            final(self).wf(),
            matched == at_token(old(self).pending(), token@),
            final(self).pending() == if matched {
                old(self).pending().skip(1)
            } else {
                old(self).pending()
            },
    {
        let matched = match &self.current_token {
            Some(current) => same_token(current, token),
            None => false,
        };
        if matched {
            self.next_token();
        }
        matched
    }

    /// Matches and consumes the current token if it is the keyword `keyword`,
    /// in whatever case its ASCII letters are.
    fn match_keyword(&mut self, keyword: &str) -> (matched: bool)
        requires
            old(self).wf(),
        ensures
            final(self).wf(),
            matched == at_keyword(old(self).pending(), keyword@),
            final(self).pending() == if matched {
                old(self).pending().skip(1)
            } else {
                old(self).pending()
            },
    {
        let matched = match &self.current_token {
            Some(Token::Keyword(kw)) => kw.as_str().eq_ignore_ascii_case(keyword),
            _ => false,
        };
        if matched {
            self.next_token();
        }
        matched
    }

    /// Parses the statement at the front of the pending tokens and describes
    /// a failure in words.
    pub fn parse(&mut self) -> (result: Result<Query, String>)
        requires
            old(self).wf(),
        ensures
            final(self).wf(),
            final(self).pending() == statement(old(self).pending()).rest,
            match result {
                Ok(query) => statement(old(self).pending()).outcome matches Ok(parsed)
                    && parsed == query@,
                Err(message) => statement(old(self).pending()).outcome matches Err(error)
                    && message@ == error.message_text(),
            },
    {
        match self.parse_statement() {
            Ok(query) => Ok(query),
            Err(error) => Err(error.message()),
        }
    }

    /// Parses the statement at the front of the pending tokens.
    pub fn parse_statement(&mut self) -> (result: Result<Query, ParseError>)
        requires
            old(self).wf(),
        ensures
            final(self).wf(),
            outcome_view(result) == statement(old(self).pending()).outcome,
            final(self).pending() == statement(old(self).pending()).rest,
    {
        let is_insert = match &self.current_token {
            Some(Token::Keyword(kw)) => kw.as_str().eq_ignore_ascii_case("INSERT"),
            _ => false,
        };
        if is_insert {
            self.parse_insert()
        } else {
            Err(ParseError::UnsupportedStatement)
        }
    }

    /// Parses an `INSERT` statement.
    fn parse_insert(&mut self) -> (result: Result<Query, ParseError>)
        requires
            old(self).wf(),
        ensures
            final(self).wf(),
            outcome_view(result) == insert_statement(old(self).pending()).outcome,
            final(self).pending() == insert_statement(old(self).pending()).rest,
    {
        if !self.match_keyword("INSERT") {
            return Err(ParseError::StructuralMismatch(Expected::InsertKeyword));
        }
        if !self.match_keyword("INTO") {
            return Err(ParseError::StructuralMismatch(Expected::IntoKeyword));
        }
        proof {
            self.lemma_lookahead();
            assert(self.pending() == old(self).pending().skip(2));
        }
        let table = match &self.current_token {
            Some(Token::Identifier(name)) => name.clone(),
            _ => {
                return Err(ParseError::StructuralMismatch(Expected::TableName));
            },
        };
        self.next_token();
        let ghost after_table = self.pending();
        proof {
            assert(after_table == old(self).pending().skip(3));
            assert(insert_statement(old(self).pending()) == columns_clause(table@, after_table));
        }
        if !self.match_token(&Token::LeftParen) {
            return Err(ParseError::StructuralMismatch(Expected::LeftParen));
        }
        let columns = match self.parse_column_list() {
            Ok(columns) => columns,
            Err(error) => {
                return Err(error);
            },
        };
        let ghost after_columns = self.pending();
        proof {
            assert(columns_clause(table@, after_table) == values_clause(
                table@,
                names_view(columns@),
                after_columns,
            ));
        }
        if !self.match_token(&Token::RightParen) {
            return Err(ParseError::StructuralMismatch(Expected::RightParen));
        }
        if !self.match_keyword("VALUES") {
            return Err(ParseError::StructuralMismatch(Expected::ValuesKeyword));
        }
        proof {
            assert(self.pending() == after_columns.skip(2));
        }
        if !self.match_token(&Token::LeftParen) {
            return Err(ParseError::StructuralMismatch(Expected::LeftParen));
        }
        proof {
            assert(self.pending() == after_columns.skip(3));
        }
        let values = match self.parse_value_list() {
            Ok(values) => values,
            Err(error) => {
                return Err(error);
            },
        };
        let ghost after_values = self.pending();
        let ghost insert = InsertView {
            table: table@,
            columns: names_view(columns@),
            values: values_view(values@),
        };
        proof {
            assert(values_clause(table@, names_view(columns@), after_columns) == closing(
                insert,
                after_values,
            ));
        }
        if !self.match_token(&Token::RightParen) {
            return Err(ParseError::StructuralMismatch(Expected::RightParen));
        }
        proof {
            if at_token(self.pending(), TokenView::SemiColon) {
                assert(self.pending().skip(1) == after_values.skip(2));
            }
        }
        let _ = self.match_token(&Token::SemiColon);
        let query = Query::Insert(Insert { table, columns, values });
        proof {
            assert(query@ == QueryView::Insert(insert));
        }
        Ok(query)
    }

    /// Parses the list of column names.
    fn parse_column_list(&mut self) -> (result: Result<Vec<String>, ParseError>)
        requires
            old(self).wf(),
        ensures
            final(self).wf(),
            final(self).pending() == column_list(old(self).pending()).rest,
            match result {
                Ok(columns) => column_list(old(self).pending()).outcome matches Ok(names)
                    && names == names_view(columns@),
                Err(error) => column_list(old(self).pending()).outcome matches Err(found)
                    && found == error,
            },
    {
        let mut columns: Vec<String> = Vec::new();
        loop
            invariant_except_break
                column_list(old(self).pending()) == prefixed(
                    names_view(columns@),
                    column_list(self.pending()),
                ),
            invariant
                self.wf(),
            ensures
                self.wf(),
                column_list(old(self).pending()).outcome matches Ok(names) && names == names_view(
                    columns@,
                ),
                column_list(old(self).pending()).rest == self.pending(),
            decreases self.pending().len(),
        {
            let ghost before = self.pending();
            let ghost names = names_view(columns@);
            let name = match &self.current_token {
                Some(Token::Identifier(col)) => col.clone(),
                _ => {
                    return Err(ParseError::StructuralMismatch(Expected::ColumnName));
                },
            };
            columns.push(name);
            self.next_token();
            proof {
                assert(names_view(columns@) == names + seq![name@]);
            }
            if !self.match_token(&Token::Comma) {
                break ;
            }
            proof {
                let more = column_list(self.pending());
                assert(column_list(before) == prefixed(seq![name@], more));
                if more.outcome is Ok {
                    assert(names + (seq![name@] + more.outcome->Ok_0) == (names + seq![name@])
                        + more.outcome->Ok_0);
                }
            }
        }
        Ok(columns)
    }

    /// Parses the list of values.
    fn parse_value_list(&mut self) -> (result: Result<Vec<Value>, ParseError>)
        requires
            old(self).wf(),
        ensures
            final(self).wf(),
            final(self).pending() == value_list(old(self).pending()).rest,
            match result {
                Ok(values) => value_list(old(self).pending()).outcome matches Ok(items)
                    && items == values_view(values@),
                Err(error) => value_list(old(self).pending()).outcome matches Err(found)
                    && found == error,
            },
    {
        let mut values: Vec<Value> = Vec::new();
        loop
            invariant_except_break
                value_list(old(self).pending()) == prefixed(
                    values_view(values@),
                    value_list(self.pending()),
                ),
            invariant
                self.wf(),
            ensures
                self.wf(),
                value_list(old(self).pending()).outcome matches Ok(items) && items == values_view(
                    values@,
                ),
                value_list(old(self).pending()).rest == self.pending(),
            decreases self.pending().len(),
        {
            let ghost before = self.pending();
            let ghost items = values_view(values@);
            self.consume_whitespace_and_comments();
            let item = match self.parse_value() {
                Ok(item) => item,
                Err(error) => {
                    return Err(error);
                },
            };
            values.push(item);
            self.consume_whitespace_and_comments();
            proof {
                assert(values_view(values@) == items + seq![item@]);
                lemma_skip_blanks_shortens(before);
                lemma_skip_blanks_shortens(value(skip_blanks(before)).rest);
            }
            if !self.match_token(&Token::Comma) {
                break ;
            }
            proof {
                let more = value_list(self.pending());
                if more.outcome is Ok {
                    assert(items + (seq![item@] + more.outcome->Ok_0) == (items + seq![item@])
                        + more.outcome->Ok_0);
                }
            }
        }
        Ok(values)
    }

    /// Parses one value.
    fn parse_value(&mut self) -> (result: Result<Value, ParseError>)
        requires
            old(self).wf(),
        ensures
            final(self).wf(),
            final(self).pending() == value(old(self).pending()).rest,
            match result {
                Ok(item) => value(old(self).pending()).outcome matches Ok(found) && found == item@,
                Err(error) => value(old(self).pending()).outcome matches Err(found)
                    && found == error,
            },
    {
        match &self.current_token {
            Some(Token::Integer(i)) => {
                let item = Value::Integer(*i);
                self.next_token();
                Ok(item)
            },
            Some(Token::Float(digits)) => {
                let item = Value::Float(digits.clone());
                self.next_token();
                Ok(item)
            },
            Some(Token::StringLiteral(text)) => {
                let item = Value::Text(text.clone());
                self.next_token();
                Ok(item)
            },
            Some(Token::Null) => {
                self.next_token();
                Ok(Value::Null)
            },
            Some(Token::Boolean(b)) => {
                let item = Value::Boolean(*b);
                self.next_token();
                Ok(item)
            },
            Some(Token::Keyword(kw)) => {
                match Self::temporal_keyword(kw.as_str()) {
                    Some(kind) => {
                        self.next_token();
                        self.parse_temporal_literal(kind)
                    },
                    None => Err(ParseError::UnrecognizedValue),
                }
            },
            _ => Err(ParseError::UnrecognizedValue),
        }
    }

    /// The kind of temporal literal that a keyword introduces, if any.
    fn temporal_keyword(keyword: &str) -> (kind: Option<Temporal>)
        ensures
            kind == temporal_kind(keyword@),
    {
        if keyword.eq_ignore_ascii_case("DATE") {
            Some(Temporal::Date)
        } else if keyword.eq_ignore_ascii_case("TIME") {
            Some(Temporal::Time)
        } else if keyword.eq_ignore_ascii_case("TIMESTAMP") {
            Some(Temporal::Timestamp)
        } else if keyword.eq_ignore_ascii_case("INTERVAL") {
            Some(Temporal::Interval)
        } else {
            None
        }
    }

    /// Parses the string that must follow the keyword of a temporal literal.
    fn parse_temporal_literal(&mut self, kind: Temporal) -> (result: Result<Value, ParseError>)
        requires
            old(self).wf(),
        ensures
            final(self).wf(),
            final(self).pending() == temporal_literal(kind, old(self).pending()).rest,
            match result {
                Ok(item) => temporal_literal(kind, old(self).pending()).outcome matches Ok(found)
                    && found == item@,
                Err(error) => temporal_literal(kind, old(self).pending()).outcome matches Err(
                    found,
                ) && found == error,
            },
    {
        let text = match &self.current_token {
            Some(Token::StringLiteral(text)) => text.clone(),
            _ => {
                return Err(ParseError::LiteralShape(kind));
            },
        };
        self.next_token();
        Ok(
            match kind {
                Temporal::Date => Value::Date(text),
                Temporal::Time => Value::Time(text),
                Temporal::Timestamp => Value::Timestamp(text),
                Temporal::Interval => Value::Interval(text),
            },
        )
    }

    /// Consumes any white-space tokens at the front. No comment syntax is
    /// recognized, so there are no comments to consume.
    fn consume_whitespace_and_comments(&mut self)
        requires
            old(self).wf(),
        ensures
            final(self).wf(),
            final(self).pending() == skip_blanks(old(self).pending()),
    {
        loop
            invariant
                self.wf(),
                skip_blanks(self.pending()) == skip_blanks(old(self).pending()),
            ensures
                self.wf(),
                self.pending() == skip_blanks(old(self).pending()),
            decreases self.pending().len(),
        {
            let blank = match &self.current_token {
                Some(Token::Whitespace(_)) => true,
                _ => false,
            };
            if !blank {
                break ;
            }
            self.next_token();
        }
    }
}

} // verus!
