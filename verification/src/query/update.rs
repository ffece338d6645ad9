//! The `UPDATE` builder.
use vstd::prelude::*;
use crate::expr::Expr;
use crate::query::ast::{Query, Stmt, Update};
use crate::query::lower::{lower_filter, spec_filter};
use crate::schema::IntoTableName;

verus! {

/// Builder for `UPDATE` statements.
pub struct UpdateBuilder {
    pub table: &'static str,
    pub content: Option<serde_json::Value>,
    pub filter: Option<Expr>,
}

/// Updates rows of the given table.
pub fn update(table: impl IntoTableName) -> (r: UpdateBuilder)
    ensures
        r.table == table.spec_table_name(),
        r.content is None,
        r.filter is None,
{
    UpdateBuilder { table: table.table_name(), content: None, filter: None }
}

impl UpdateBuilder {
    /// Sets the content to merge, given as its JSON value.
    pub fn content(self, value: serde_json::Value) -> (r: Self)
        ensures
            r.table == self.table,
            r.content == Some(value),
            r.filter == self.filter,
    {
        UpdateBuilder { table: self.table, content: Some(value), filter: self.filter }
    }

    /// Sets the filter (replacing an earlier one).
    pub fn where_(self, expr: Expr) -> (r: Self)
        ensures
            r.table == self.table,
            r.content == self.content,
            r.filter == Some(expr),
    {
        UpdateBuilder { table: self.table, content: self.content, filter: Some(expr) }
    }

    /// The `UPDATE` query.
    pub fn into_query(self) -> (r: Query)
        ensures
            r.stmt == Stmt::Update(Update { table: self.table, merge: self.content, filter: spec_filter(self.filter) }),
            r.binds@.len() == 0,
    {
        let filter = lower_filter(self.filter);
        Query::new(Stmt::Update(Update { table: self.table, merge: self.content, filter }))
    }
}

} // verus!
