//! The statement that the parser builds.

use vstd::prelude::*;

verus! {

/// A literal value of a statement.
///
/// A fractional number carries the digits and dots it was written with. The
/// temporal variants carry the text of their string literal, which is not
/// examined.
#[derive(Debug, Clone, PartialEq)]
pub enum Value {
    Integer(i64),
    Float(String),
    Text(String),
    Boolean(bool),
    Null,
    Date(String),
    Time(String),
    Timestamp(String),
    Interval(String),
}

/// The mathematical value of a [`Value`].
pub enum ValueView {
    Integer(i64),
    Float(Seq<char>),
    Text(Seq<char>),
    Boolean(bool),
    Null,
    Date(Seq<char>),
    Time(Seq<char>),
    Timestamp(Seq<char>),
    Interval(Seq<char>),
}

impl View for Value {
    type V = ValueView;

    open spec fn view(&self) -> ValueView {
        match *self {
            Value::Integer(i) => ValueView::Integer(i),
            Value::Float(s) => ValueView::Float(s@),
            Value::Text(s) => ValueView::Text(s@),
            Value::Boolean(b) => ValueView::Boolean(b),
            Value::Null => ValueView::Null,
            Value::Date(s) => ValueView::Date(s@),
            Value::Time(s) => ValueView::Time(s@),
            Value::Timestamp(s) => ValueView::Timestamp(s@),
            Value::Interval(s) => ValueView::Interval(s@),
        }
    }
}

/// An `INSERT` statement: a table, the columns named and the values given, in
/// the order in which they were written. The two lists need not have the same
/// length, and a column may be named twice.
#[derive(Debug, Clone, PartialEq)]
pub struct Insert {
    pub table: String,
    pub columns: Vec<String>,
    pub values: Vec<Value>,
}

/// The mathematical value of an [`Insert`].
pub struct InsertView {
    pub table: Seq<char>,
    pub columns: Seq<Seq<char>>,
    pub values: Seq<ValueView>,
}

/// The texts of a list of names.
pub open spec fn names_view(names: Seq<String>) -> Seq<Seq<char>> {
    names.map_values(|name: String| name@)
}

/// The values of a list of literals.
pub open spec fn values_view(values: Seq<Value>) -> Seq<ValueView> {
    values.map_values(|value: Value| value@)
}

impl View for Insert {
    type V = InsertView;

    open spec fn view(&self) -> InsertView {
        InsertView {
            table: self.table@,
            columns: names_view(self.columns@),
            values: values_view(self.values@),
        }
    }
}

/// A parsed statement. `INSERT` is the only kind there is.
#[derive(Debug, Clone, PartialEq)]
pub enum Query {
    Insert(Insert),
}

/// The mathematical value of a [`Query`].
pub enum QueryView {
    Insert(InsertView),
}

impl View for Query {
    type V = QueryView;

    open spec fn view(&self) -> QueryView {
        match *self {
            Query::Insert(insert) => QueryView::Insert(insert@),
        }
    }
}

} // verus!
