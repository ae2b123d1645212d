//! The ways in which a statement can fail to parse.

use vstd::prelude::*;
use vstd::string::StringExecFns;

verus! {

/// A construct that the grammar requires at some position.
#[derive(Debug, Clone, Copy, PartialEq, Eq)]
pub enum Expected {
    InsertKeyword,
    IntoKeyword,
    TableName,
    LeftParen,
    ColumnName,
    RightParen,
    ValuesKeyword,
}

impl Expected {
    /// The text that says what was expected.
    pub open spec fn message_text(self) -> Seq<char> {
        match self {
            Expected::InsertKeyword => "Expected 'INSERT' keyword."@,
            Expected::IntoKeyword => "Expected 'INTO' keyword."@,
            Expected::TableName => "Expected table name."@,
            Expected::LeftParen => "Expected '('."@,
            Expected::ColumnName => "Expected column name."@,
            Expected::RightParen => "Expected ')'."@,
            Expected::ValuesKeyword => "Expected 'VALUES' keyword."@,
        }
    }

    /// Says in words what was expected.
    pub fn message(&self) -> (text: String)
        ensures
            text@ == self.message_text(),
    {
        match self {
            Expected::InsertKeyword => String::from_str("Expected 'INSERT' keyword."),
            Expected::IntoKeyword => String::from_str("Expected 'INTO' keyword."),
            Expected::TableName => String::from_str("Expected table name."),
            Expected::LeftParen => String::from_str("Expected '('."),
            Expected::ColumnName => String::from_str("Expected column name."),
            Expected::RightParen => String::from_str("Expected ')'."),
            Expected::ValuesKeyword => String::from_str("Expected 'VALUES' keyword."),
        }
    }
}

/// The kinds of literal that are written as a keyword and a string.
#[derive(Debug, Clone, Copy, PartialEq, Eq)]
pub enum Temporal {
    Date,
    Time,
    Timestamp,
    Interval,
}

impl Temporal {
    /// The keyword that introduces a literal of this kind.
    pub open spec fn keyword(self) -> Seq<char> {
        match self {
            Temporal::Date => "DATE"@,
            Temporal::Time => "TIME"@,
            Temporal::Timestamp => "TIMESTAMP"@,
            Temporal::Interval => "INTERVAL"@,
        }
    }

    /// The text that says that a literal of this kind is malformed.
    pub open spec fn message_text(self) -> Seq<char> {
        match self {
            Temporal::Date => "Failed to parse 'DATE' literal."@,
            Temporal::Time => "Failed to parse 'TIME' literal."@,
            Temporal::Timestamp => "Failed to parse 'TIMESTAMP' literal."@,
            Temporal::Interval => "Failed to parse 'INTERVAL' literal."@,
        }
    }

    /// Says in words that a literal of this kind is malformed.
    pub fn message(&self) -> (text: String)
        ensures
            text@ == self.message_text(),
    {
        match self {
            Temporal::Date => String::from_str("Failed to parse 'DATE' literal."),
            Temporal::Time => String::from_str("Failed to parse 'TIME' literal."),
            Temporal::Timestamp => String::from_str("Failed to parse 'TIMESTAMP' literal."),
            Temporal::Interval => String::from_str("Failed to parse 'INTERVAL' literal."),
        }
    }
}

/// Why a statement was rejected. Parsing stops at the first failure.
#[derive(Debug, Clone, Copy, PartialEq, Eq)]
pub enum ParseError {
    /// A required keyword, name or punctuation mark was not found.
    StructuralMismatch(Expected),
    /// The keyword of a temporal literal was not followed by a string.
    LiteralShape(Temporal),
    /// The token at the position of a value starts no value.
    UnrecognizedValue,
    /// The statement does not begin with `INSERT`.
    UnsupportedStatement,
}

impl ParseError {
    /// The text that describes the failure.
    pub open spec fn message_text(self) -> Seq<char> {
        match self {
            ParseError::StructuralMismatch(expected) => expected.message_text(),
            ParseError::LiteralShape(kind) => kind.message_text(),
            ParseError::UnrecognizedValue => "Failed to parse value."@,
            ParseError::UnsupportedStatement => "Unsupported query type."@,
        }
    }

    /// Describes the failure in words.
    pub fn message(&self) -> (text: String)
        ensures
            text@ == self.message_text(),
    {
        match self {
            ParseError::StructuralMismatch(expected) => expected.message(),
            ParseError::LiteralShape(kind) => kind.message(),
            ParseError::UnrecognizedValue => String::from_str("Failed to parse value."),
            ParseError::UnsupportedStatement => String::from_str("Unsupported query type."),
        }
    }
}

} // verus!
