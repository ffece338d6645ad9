//! Logical filter expressions of the query DSL.
use vstd::prelude::*;
use crate::schema::Col;

verus! {

/// Logical expression tree used in the high-level filter DSL.
#[derive(Debug)]
pub enum ExprKind {
    Binary { table: &'static str, col: &'static str, op: &'static str, val: serde_json::Value },
    And(Box<Expr>, Box<Expr>),
    Or(Box<Expr>, Box<Expr>),
    Not(Box<Expr>),
    True,
}

/// A boolean expression.
#[derive(Debug)]
pub struct Expr(pub ExprKind);

/// Ordering specifier used in queries: a column (table, name) ascending or descending.
#[derive(Debug, Clone, Copy, PartialEq, Eq)]
pub enum ColumnOrder {
    Asc(&'static str, &'static str),
    Desc(&'static str, &'static str),
}

/// Wildcard marker for `SELECT *`.
#[derive(Debug, Clone, Copy, PartialEq, Eq)]
pub struct All;

impl Expr {
    /// A copy of the expression.
    pub fn duplicate(&self) -> (r: Expr)
        ensures
            r == *self,
        decreases self,
    {
        match &self.0 {
            ExprKind::Binary { table, col, op, val } => Expr(
                ExprKind::Binary { table: *table, col: *col, op: *op, val: val.clone() },
            ),
            ExprKind::And(a, b) => Expr(ExprKind::And(Box::new(a.duplicate()), Box::new(b.duplicate()))),
            ExprKind::Or(a, b) => Expr(ExprKind::Or(Box::new(a.duplicate()), Box::new(b.duplicate()))),
            ExprKind::Not(a) => Expr(ExprKind::Not(Box::new(a.duplicate()))),
            ExprKind::True => Expr(ExprKind::True),
        }
    }

    /// A binary predicate `col op val` on a column.
    pub fn binary<T>(col: &Col<T>, op: &'static str, val: serde_json::Value) -> (r: Expr)
        ensures
            r == Expr(ExprKind::Binary { table: col.table, col: col.name, op, val }),
    {
        Expr(ExprKind::Binary { table: col.table, col: col.name, op, val })
    }

    /// Conjunction (AND).
    pub fn and(self, rhs: Expr) -> (r: Expr)
        ensures
            r == Expr(ExprKind::And(Box::new(self), Box::new(rhs))),
    {
        Expr(ExprKind::And(Box::new(self), Box::new(rhs)))
    }

    /// Disjunction (OR).
    pub fn or(self, rhs: Expr) -> (r: Expr)
        ensures
            r == Expr(ExprKind::Or(Box::new(self), Box::new(rhs))),
    {
        Expr(ExprKind::Or(Box::new(self), Box::new(rhs)))
    }

    /// Negation (NOT).
    pub fn negate(self) -> (r: Expr)
        ensures
            r == Expr(ExprKind::Not(Box::new(self))),
    {
        Expr(ExprKind::Not(Box::new(self)))
    }
}

impl std::ops::Not for Expr {
    type Output = Expr;

    fn not(self) -> (r: Expr) {
        Expr(ExprKind::Not(Box::new(self)))
    }
}

impl vstd::std_specs::ops::NotSpecImpl for Expr {
    open spec fn obeys_not_spec() -> bool {
        true
    }

    open spec fn not_req(self) -> bool {
        true
    }

    open spec fn not_spec(self) -> Expr {
        Expr(ExprKind::Not(Box::new(self)))
    }
}

/// Emphasises a conditional expression in builder chains; returns it unchanged.
pub fn cond(e: Expr) -> (r: Expr)
    ensures
        r == e,
{
    e
}

} // verus!
