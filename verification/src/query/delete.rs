//! The `DELETE` builder.
use vstd::prelude::*;
use crate::expr::Expr;
use crate::query::ast::{Delete, Query, Stmt};
use crate::query::lower::{lower_filter, spec_filter};
use crate::schema::IntoTableName;

verus! {

/// Builder for `DELETE` statements.
pub struct DeleteBuilder {
    pub table: &'static str,
    pub filter: Option<Expr>,
}

/// Deletes from the given table (every row unless a filter is set).
pub fn delete(table: impl IntoTableName) -> (r: DeleteBuilder)
    ensures
        r.table == table.spec_table_name(),
        r.filter is None,
{
    DeleteBuilder { table: table.table_name(), filter: None }
}

impl DeleteBuilder {
    /// Sets the filter (replacing an earlier one).
    pub fn where_(self, expr: Expr) -> (r: Self)
        ensures
            r.table == self.table,
            r.filter == Some(expr),
    {
        DeleteBuilder { table: self.table, filter: Some(expr) }
    }

    /// The `DELETE` query.
    pub fn into_query(self) -> (r: Query)
        ensures
            r.stmt == Stmt::Delete(Delete { table: self.table, filter: spec_filter(self.filter) }),
            r.binds@.len() == 0,
    {
        let filter = lower_filter(self.filter);
        Query::new(Stmt::Delete(Delete { table: self.table, filter }))
    }
}

} // verus!
