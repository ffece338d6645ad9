//! Typed handles for tables, edge tables and columns.
use vstd::prelude::*;
use std::marker::PhantomData;
use crate::expr::{ColumnOrder, Expr, ExprKind};

verus! {

/// A node table handle.
#[derive(Debug, PartialEq, Eq)]
pub struct Table<T> {
    pub name: &'static str,
    pub _p: PhantomData<T>,
}

impl<T> Table<T> {
    pub fn new(name: &'static str) -> (r: Self)
        ensures
            r.name == name,
    {
        Table { name, _p: PhantomData }
    }
}

/// An edge table handle.
#[derive(Debug, PartialEq, Eq)]
pub struct EdgeTable<E, From, To> {
    pub name: &'static str,
    pub _p: PhantomData<(E, From, To)>,
}

impl<E, From, To> EdgeTable<E, From, To> {
    pub fn new(name: &'static str) -> (r: Self)
        ensures
            r.name == name,
    {
        EdgeTable { name, _p: PhantomData }
    }
}

impl<T> Clone for Table<T> {
    fn clone(&self) -> (r: Self)
        ensures
            r == *self,
    {
        Table { name: self.name, _p: PhantomData }
    }
}

impl<E, From, To> Clone for EdgeTable<E, From, To> {
    fn clone(&self) -> (r: Self)
        ensures
            r == *self,
    {
        EdgeTable { name: self.name, _p: PhantomData }
    }
}

impl<T> Clone for Col<T> {
    fn clone(&self) -> (r: Self)
        ensures
            r == *self,
    {
        Col { table: self.table, name: self.name, _p: PhantomData }
    }
}

impl<T> Copy for Col<T> {
}

/// Extracts a static table name from a table handle.
pub trait IntoTableName {
    /// The table name the handle stands for.
    spec fn spec_table_name(&self) -> &'static str;

    fn table_name(&self) -> (r: &'static str)
        ensures
            r == self.spec_table_name(),
    ;
}

impl<T> IntoTableName for Table<T> {
    open spec fn spec_table_name(&self) -> &'static str {
        self.name
    }

    fn table_name(&self) -> (r: &'static str) {
        self.name
    }
}

impl<'a, T> IntoTableName for &'a Table<T> {
    open spec fn spec_table_name(&self) -> &'static str {
        self.name
    }

    fn table_name(&self) -> (r: &'static str) {
        self.name
    }
}

impl<E, F, To> IntoTableName for EdgeTable<E, F, To> {
    open spec fn spec_table_name(&self) -> &'static str {
        self.name
    }

    fn table_name(&self) -> (r: &'static str) {
        self.name
    }
}

impl<'a, E, F, To> IntoTableName for &'a EdgeTable<E, F, To> {
    open spec fn spec_table_name(&self) -> &'static str {
        self.name
    }

    fn table_name(&self) -> (r: &'static str) {
        self.name
    }
}

/// A typed column handle: table and column name.
#[derive(Debug, PartialEq, Eq)]
pub struct Col<T> {
    pub table: &'static str,
    pub name: &'static str,
    pub _p: PhantomData<T>,
}

/// The binary predicate `op` on column `c` with value `v`.
pub open spec fn col_pred<T>(c: Col<T>, op: &'static str, v: serde_json::Value) -> Expr {
    Expr(ExprKind::Binary { table: c.table, col: c.name, op, val: v })
}

impl<T> Col<T> {
    pub fn new(table: &'static str, name: &'static str) -> (r: Self)
        ensures
            r.table == table,
            r.name == name,
    {
        Col { table, name, _p: PhantomData }
    }

    /// Equality predicate `col = v`; `v` is the JSON form of the compared value.
    pub fn eq(self, v: serde_json::Value) -> (r: Expr)
        ensures
            r == col_pred(self, "=", v),
    {
        Expr::binary(&self, "=", v)
    }

    /// Alias for `eq`.
    pub fn equal(self, v: serde_json::Value) -> (r: Expr)
        ensures
            r == col_pred(self, "=", v),
    {
        self.eq(v)
    }

    /// Less-than predicate.
    pub fn lt(self, v: serde_json::Value) -> (r: Expr)
        ensures
            r == col_pred(self, "<", v),
    {
        Expr::binary(&self, "<", v)
    }

    /// Less-than-or-equal predicate.
    pub fn lte(self, v: serde_json::Value) -> (r: Expr)
        ensures
            r == col_pred(self, "<=", v),
    {
        Expr::binary(&self, "<=", v)
    }

    /// Greater-than predicate.
    pub fn gt(self, v: serde_json::Value) -> (r: Expr)
        ensures
            r == col_pred(self, ">", v),
    {
        Expr::binary(&self, ">", v)
    }

    /// Greater-than-or-equal predicate.
    pub fn gte(self, v: serde_json::Value) -> (r: Expr)
        ensures
            r == col_pred(self, ">=", v),
    {
        Expr::binary(&self, ">=", v)
    }

    /// IN predicate: the column's value lies in the JSON list `items`.
    pub fn isin(self, items: serde_json::Value) -> (r: Expr)
        ensures
            r == col_pred(self, "IN", items),
    {
        Expr::binary(&self, "IN", items)
    }

    /// LIKE predicate (pattern match).
    pub fn like(self, pattern: serde_json::Value) -> (r: Expr)
        ensures
            r == col_pred(self, "LIKE", pattern),
    {
        Expr::binary(&self, "LIKE", pattern)
    }

    /// Inclusive BETWEEN: `col >= low AND col <= high`.
    pub fn between(self, low: serde_json::Value, high: serde_json::Value) -> (r: Expr)
        ensures
            r == Expr(ExprKind::And(Box::new(col_pred(self, ">=", low)), Box::new(col_pred(self, "<=", high)))),
    {
        let l = Expr::binary(&self, ">=", low);
        let h = Expr::binary(&self, "<=", high);
        l.and(h)
    }

    /// Descending ordering on this column.
    pub fn desc(self) -> (r: ColumnOrder)
        ensures
            r == ColumnOrder::Desc(self.table, self.name),
    {
        ColumnOrder::Desc(self.table, self.name)
    }

    /// Ascending ordering on this column.
    pub fn asc(self) -> (r: ColumnOrder)
        ensures
            r == ColumnOrder::Asc(self.table, self.name),
    {
        ColumnOrder::Asc(self.table, self.name)
    }
}

} // verus!
