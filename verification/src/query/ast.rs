//! Backend-agnostic logical queries. Backends compile these into their native form.
use vstd::prelude::*;
use crate::graph::GraphTraversal;
use crate::query::select::TraversalSeg;

verus! {

/// A backend-agnostic query with bound parameters (each name bound once).
#[derive(Debug)]
pub struct Query {
    pub stmt: Stmt,
    pub binds: Vec<(String, serde_json::Value)>,
}

/// The bindings of `b` other than those named `k`.
pub open spec fn binds_without(b: Seq<(String, serde_json::Value)>, k: Seq<char>) -> Seq<(String, serde_json::Value)> {
    b.filter(|p: (String, serde_json::Value)| p.0@ != k)
}

impl Query {
    /// A query with no bindings.
    pub fn new(stmt: Stmt) -> (r: Query)
        ensures
            r.stmt == stmt,
            r.binds@.len() == 0,
    {
        Query { stmt, binds: Vec::new() }
    }

    /// Binds parameter `key` to `val`, replacing an earlier binding of the same name.
    pub fn bind(self, key: String, val: serde_json::Value) -> (r: Query)
        ensures
            r.stmt == self.stmt,
            r.binds@ == binds_without(self.binds@, key@).push((key, val)),
    {
        let Query { stmt, binds } = self;
        let ghost old_binds = binds@;
        let mut kept: Vec<(String, serde_json::Value)> = Vec::new();
        let mut rest = binds;
        let n = rest.len();
        assert(n == old_binds.len());
        let mut i: usize = 0;
        assert(old_binds.take(0) =~= Seq::<(String, serde_json::Value)>::empty());
        proof {
            reveal(Seq::filter);
        }
        while rest.len() > 0
            invariant
                rest@.len() + i == old_binds.len(),
                old_binds.len() == n,
                rest@ == old_binds.skip(i as int),
                i <= old_binds.len(),
                kept@ == binds_without(old_binds.take(i as int), key@),
            decreases rest@.len(),
        {
            let ghost prefix = old_binds.take(i as int);
            let p = rest.remove(0);
            assert(p == old_binds[i as int]);
            assert(rest@ =~= old_binds.skip(i + 1));
            assert(old_binds.take(i + 1).drop_last() =~= prefix);
            assert(old_binds.take(i + 1).last() == p);
            proof {
                reveal(Seq::filter);
            }
            if !crate::text::str_eq(p.0.as_str(), key.as_str()) {
                kept.push(p);
            }
            i += 1;
        }
        assert(old_binds.take(old_binds.len() as int) =~= old_binds);
        kept.push((key, val));
        Query { stmt, binds: kept }
    }
}

/// Statement kinds supported by the high-level DSL.
#[derive(Debug)]
pub enum Stmt {
    Select(Select),
    Insert(Insert),
    Update(Update),
    Delete(Delete),
    Graph(GraphTraversal),
}

/// Select field specification.
#[derive(Debug)]
pub enum SelectField {
    /// `*`
    Star,
    /// A simple column name.
    Column(&'static str),
    /// A raw expression with optional alias.
    Expr { expr: String, alias: Option<&'static str> },
    /// `count()` with alias.
    CountAll { alias: &'static str },
    /// `count(col)` with alias.
    CountCol { col: &'static str, alias: &'static str },
}

/// Row-level or column DISTINCT.
#[derive(Debug)]
pub enum Distinct {
    All,
    On(Vec<&'static str>),
}

/// A `SELECT` statement.
#[derive(Debug)]
pub struct Select {
    pub table: &'static str,
    /// Optional record id to target a specific record like `table:id`.
    pub record_id: Option<String>,
    /// Projection list.
    pub fields: Vec<SelectField>,
    pub filter: Option<PredExpr>,
    pub order_by: Vec<OrderKey>,
    pub limit: Option<u64>,
    pub group_by: Vec<GroupBySpec>,
    /// Traversal segments applied after the base FROM target.
    pub traversal: Vec<TraversalSeg>,
    pub distinct: Option<Distinct>,
}

/// Group-by specification.
#[derive(Debug)]
pub enum GroupBySpec {
    /// Group by a simple column name (no table prefix).
    Column(&'static str),
    /// Group by a raw expression.
    Expr(String),
}

/// An `INSERT` statement.
#[derive(Debug)]
pub struct Insert {
    pub table: &'static str,
    pub values: serde_json::Value,
    /// (source field name, target field name) when inserting edges with custom endpoint names.
    pub endpoint_fields: Option<(&'static str, &'static str)>,
}

/// An `UPDATE` statement.
#[derive(Debug)]
pub struct Update {
    pub table: &'static str,
    pub merge: Option<serde_json::Value>,
    pub filter: Option<PredExpr>,
}

/// A `DELETE` statement.
#[derive(Debug)]
pub struct Delete {
    pub table: &'static str,
    pub filter: Option<PredExpr>,
}

/// Predicate expression for statements, lowered from the high-level `Expr`.
#[derive(Debug)]
pub enum PredExpr {
    True,
    Binary { col: &'static str, op: &'static str, param: Param },
    And(Box<PredExpr>, Box<PredExpr>),
    Or(Box<PredExpr>, Box<PredExpr>),
    Not(Box<PredExpr>),
}

/// Parameter reference: inline or named.
#[derive(Debug)]
pub enum Param {
    Inline(serde_json::Value),
    Named(String),
}

/// Ordering of results by a column.
#[derive(Debug, Clone, Copy, PartialEq, Eq)]
pub enum OrderKey {
    Asc(&'static str),
    Desc(&'static str),
}

} // verus!
