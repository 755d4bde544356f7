//! Statements for the relational store: a text with numbered placeholders and
//! the values bound to them, in order.

use vstd::prelude::*;
use vstd::string::StringExecFns;

verus! {

/// A value bound to a placeholder: an integer, a byte string or a text.
#[derive(Debug, PartialEq, Eq)]
pub enum SqlValue {
    Integer(u64),
    Blob(Vec<u8>),
    Text(String),
}

/// A bound value as a mathematical value.
pub enum SqlValueView {
    Integer(u64),
    Blob(Seq<u8>),
    Text(Seq<char>),
}

impl View for SqlValue {
    type V = SqlValueView;

    open spec fn view(&self) -> SqlValueView {
        match self {
            SqlValue::Integer(n) => SqlValueView::Integer(*n),
            SqlValue::Blob(b) => SqlValueView::Blob(b@),
            SqlValue::Text(t) => SqlValueView::Text(t@),
        }
    }
}

impl Clone for SqlValue {
    fn clone(&self) -> (out: SqlValue)
        ensures
            out@ == self@,
    {
        match self {
            SqlValue::Integer(n) => SqlValue::Integer(*n),
            SqlValue::Blob(b) => SqlValue::Blob(b.clone()),
            SqlValue::Text(t) => SqlValue::Text(t.clone()),
        }
    }
}

/// The views of a list of bound values.
pub open spec fn value_views(values: Seq<SqlValue>) -> Seq<SqlValueView> {
    Seq::new(values.len(), |i: int| values[i]@)
}

/// One statement to run against the store.
#[derive(Debug, PartialEq, Eq)]
pub struct Statement {
    pub sql: String,
    pub params: Vec<SqlValue>,
}

/// A statement as a mathematical value.
pub struct StatementView {
    pub sql: Seq<char>,
    pub params: Seq<SqlValueView>,
}

impl View for Statement {
    type V = StatementView;

    open spec fn view(&self) -> StatementView {
        StatementView { sql: self.sql@, params: value_views(self.params@) }
    }
}

impl Clone for Statement {
    fn clone(&self) -> (out: Statement)
        ensures
            out@ == self@,
    {
        let mut params: Vec<SqlValue> = Vec::new();
        let mut i: usize = 0;
        while i < self.params.len()
            invariant
                i <= self.params@.len(),
                params@.len() == i,
                forall|j: int| 0 <= j < i ==> (#[trigger] params@[j])@ == self.params@[j]@,
            decreases self.params@.len() - i,
        {
            params.push(self.params[i].clone());
            i = i + 1;
        }
        let out = Statement { sql: self.sql.clone(), params };
        proof {
            assert(out@.params =~= self@.params);
        }
        out
    }
}

/// The views of a list of statements.
pub open spec fn statement_views(statements: Seq<Statement>) -> Seq<StatementView> {
    Seq::new(statements.len(), |i: int| statements[i]@)
}

impl Statement {
    /// A statement without bound values.
    pub fn plain(sql: &str) -> (st: Statement)
        ensures
            st@ == (StatementView { sql: sql@, params: Seq::empty() }),
    {
        let st = Statement { sql: String::from_str(sql), params: Vec::new() };
        proof {
            assert(value_views(st.params@) =~= Seq::empty());
        }
        st
    }
}

} // verus!
