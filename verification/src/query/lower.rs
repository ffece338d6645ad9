//! Lowering of filter expressions into statement predicates.
use vstd::prelude::*;
use crate::expr::{Expr, ExprKind, ColumnOrder};
use crate::query::ast::{Param, PredExpr, OrderKey};

verus! {

/// The predicate of an expression: the same tree, each column predicate with its value inline
/// (the table qualifier is dropped).
pub open spec fn spec_pred(e: Expr) -> PredExpr
    decreases e,
{
    match e.0 {
        ExprKind::True => PredExpr::True,
        ExprKind::Binary { table, col, op, val } => PredExpr::Binary { col, op, param: Param::Inline(val) },
        ExprKind::And(a, b) => PredExpr::And(Box::new(spec_pred(*a)), Box::new(spec_pred(*b))),
        ExprKind::Or(a, b) => PredExpr::Or(Box::new(spec_pred(*a)), Box::new(spec_pred(*b))),
        ExprKind::Not(a) => PredExpr::Not(Box::new(spec_pred(*a))),
    }
}

/// Lowers an expression to a predicate.
pub fn expr_to_pred(e: Expr) -> (r: PredExpr)
    ensures
        r == spec_pred(e),
    decreases e,
{
    match e.0 {
        ExprKind::True => PredExpr::True,
        ExprKind::Binary { table: _, col, op, val } => PredExpr::Binary { col, op, param: Param::Inline(val) },
        ExprKind::And(a, b) => PredExpr::And(Box::new(expr_to_pred(*a)), Box::new(expr_to_pred(*b))),
        ExprKind::Or(a, b) => PredExpr::Or(Box::new(expr_to_pred(*a)), Box::new(expr_to_pred(*b))),
        ExprKind::Not(a) => PredExpr::Not(Box::new(expr_to_pred(*a))),
    }
}

/// The optional predicate of an optional filter.
pub open spec fn spec_filter(f: Option<Expr>) -> Option<PredExpr> {
    match f {
        Some(e) => Some(spec_pred(e)),
        None => None,
    }
}

/// Lowers an optional filter.
pub fn lower_filter(f: Option<Expr>) -> (r: Option<PredExpr>)
    ensures
        r == spec_filter(f),
{
    match f {
        Some(e) => Some(expr_to_pred(e)),
        None => None,
    }
}

/// The statement ordering of a column ordering: the column name, same direction.
pub open spec fn spec_order_key(o: ColumnOrder) -> OrderKey {
    match o {
        ColumnOrder::Asc(_, c) => OrderKey::Asc(c),
        ColumnOrder::Desc(_, c) => OrderKey::Desc(c),
    }
}

/// Lowers a list of column orderings, keeping their order.
pub fn lower_orders(v: Vec<ColumnOrder>) -> (r: Vec<OrderKey>)
    ensures
        r@ == v@.map_values(|o: ColumnOrder| spec_order_key(o)),
{
    let mut r: Vec<OrderKey> = Vec::new();
    let mut i: usize = 0;
    while i < v.len()
        invariant
            0 <= i <= v@.len(),
            r@.len() == i,
            forall|j: int| 0 <= j < i ==> r@[j] == spec_order_key(#[trigger] v@[j]),
        decreases v@.len() - i,
    {
        let o = v[i];
        let k = match o {
            ColumnOrder::Asc(_, c) => OrderKey::Asc(c),
            ColumnOrder::Desc(_, c) => OrderKey::Desc(c),
        };
        r.push(k);
        i += 1;
    }
    assert(r@ =~= v@.map_values(|o: ColumnOrder| spec_order_key(o)));
    r
}

/// Whether an expression holds of a row, where `cell(col, op, value)` tells whether the row's
/// column `col` compares to `value` by `op`: a conjunction holds when both sides hold, a
/// disjunction when either does, a negation when its operand does not.
pub open spec fn expr_holds(e: Expr, cell: spec_fn(Seq<char>, Seq<char>, serde_json::Value) -> bool) -> bool
    decreases e,
{
    match e.0 {
        ExprKind::True => true,
        ExprKind::Binary { table, col, op, val } => cell(col@, op@, val),
        ExprKind::And(a, b) => expr_holds(*a, cell) && expr_holds(*b, cell),
        ExprKind::Or(a, b) => expr_holds(*a, cell) || expr_holds(*b, cell),
        ExprKind::Not(a) => !expr_holds(*a, cell),
    }
}

/// The value a parameter stands for: an inline value, or the value bound to its name.
pub open spec fn param_value(p: Param, binds: spec_fn(Seq<char>) -> serde_json::Value) -> serde_json::Value {
    match p {
        Param::Inline(v) => v,
        Param::Named(n) => binds(n@),
    }
}

/// Whether a statement predicate holds of a row (as for [`expr_holds`]), its named parameters
/// read from `binds`.
pub open spec fn pred_holds(
    p: PredExpr,
    cell: spec_fn(Seq<char>, Seq<char>, serde_json::Value) -> bool,
    binds: spec_fn(Seq<char>) -> serde_json::Value,
) -> bool
    decreases p,
{
    match p {
        PredExpr::True => true,
        PredExpr::Binary { col, op, param } => cell(col@, op@, param_value(param, binds)),
        PredExpr::And(a, b) => pred_holds(*a, cell, binds) && pred_holds(*b, cell, binds),
        PredExpr::Or(a, b) => pred_holds(*a, cell, binds) || pred_holds(*b, cell, binds),
        PredExpr::Not(a) => !pred_holds(*a, cell, binds),
    }
}

/// Lowering keeps a filter's meaning: on every row, the lowered predicate holds exactly when
/// the expression does (whatever the bindings of named parameters, which lowering never uses).
pub proof fn lemma_lowering_keeps_meaning(
    e: Expr,
    cell: spec_fn(Seq<char>, Seq<char>, serde_json::Value) -> bool,
    binds: spec_fn(Seq<char>) -> serde_json::Value,
)
    ensures
        pred_holds(spec_pred(e), cell, binds) == expr_holds(e, cell),
    decreases e,
{
    match e.0 {
        ExprKind::And(a, b) => {
            lemma_lowering_keeps_meaning(*a, cell, binds);
            lemma_lowering_keeps_meaning(*b, cell, binds);
        },
        ExprKind::Or(a, b) => {
            lemma_lowering_keeps_meaning(*a, cell, binds);
            lemma_lowering_keeps_meaning(*b, cell, binds);
        },
        ExprKind::Not(a) => {
            lemma_lowering_keeps_meaning(*a, cell, binds);
        },
        _ => {},
    }
}

/// An optional filter lowered keeps its meaning: no filter gives no predicate, and a filter
/// gives a predicate that holds on exactly the rows the filter holds on.
pub proof fn lemma_lowered_filter_keeps_meaning(
    f: Option<Expr>,
    cell: spec_fn(Seq<char>, Seq<char>, serde_json::Value) -> bool,
    binds: spec_fn(Seq<char>) -> serde_json::Value,
)
    ensures
        f is None <==> spec_filter(f) is None,
        f matches Some(e) ==> pred_holds(spec_filter(f)->Some_0, cell, binds) == expr_holds(e, cell),
{
    if let Some(e) = f {
        lemma_lowering_keeps_meaning(e, cell, binds);
    }
}

/// Lowering an ordering keeps its direction and its column: ascending stays ascending and
/// descending stays descending, on the same column name.
pub proof fn lemma_order_key_keeps_direction(o: ColumnOrder)
    ensures
        (spec_order_key(o) is Asc) == (o is Asc),
        (spec_order_key(o) is Desc) == (o is Desc),
        match (o, spec_order_key(o)) {
            (ColumnOrder::Asc(_, c), OrderKey::Asc(k)) => k == c,
            (ColumnOrder::Desc(_, c), OrderKey::Desc(k)) => k == c,
            _ => false,
        },
{
}

} // verus!
