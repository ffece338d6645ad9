//! What a diff does to edges: every edge new in the target is created with the target's
//! endpoints and fields, every edge gone from it is dropped, and the reverse operations
//! recreate dropped edges with the current snapshot's endpoints and fields.
use vstd::prelude::*;
use crate::keyindex::{lemma_sorted_keys_exist, sorted_keys};
use crate::schema_ops::{FieldDefView, SchemaOpView};
use crate::snapshot::{EdgeView, SnapshotView};
use crate::diff::{
    Pass, FieldPass, spec_diff, table_run, field_run, edge_keys, edge_for, defs_of,
    model_keys, model_for, field_keys,
};

verus! {

/// An edge as a schema holds it: its endpoint tables and its fields.
pub struct EdgeShape {
    pub from: Seq<char>,
    pub to: Seq<char>,
    pub fields: Seq<FieldDefView>,
}

/// The shape of a declared edge.
pub open spec fn shape_of(e: EdgeView) -> EdgeShape {
    EdgeShape { from: e.from, to: e.to, fields: defs_of(e.fields) }
}

/// The edges of a snapshot by name (the last entry of a name standing for it).
pub open spec fn edge_shapes(s: SnapshotView) -> Map<Seq<char>, EdgeShape> {
    Map::new(|k: Seq<char>| edge_keys(s.edges).contains(k), |k: Seq<char>| shape_of(edge_for(s.edges, k)))
}

/// The edges after one operation: creating an edge records its endpoints and fields,
/// dropping it removes it, and other operations leave edges alone.
pub open spec fn apply_edge_op(m: Map<Seq<char>, EdgeShape>, op: SchemaOpView) -> Map<Seq<char>, EdgeShape> {
    match op {
        SchemaOpView::CreateEdge { name, from, to, fields } => m.insert(name, EdgeShape { from, to, fields }),
        SchemaOpView::DropEdge { name } => m.remove(name),
        _ => m,
    }
}

/// The edges after a sequence of operations, applied in order.
pub open spec fn apply_edge_ops(m: Map<Seq<char>, EdgeShape>, ops: Seq<SchemaOpView>) -> Map<Seq<char>, EdgeShape>
    decreases ops.len(),
{
    if ops.len() == 0 {
        m
    } else {
        apply_edge_op(apply_edge_ops(m, ops.drop_last()), ops.last())
    }
}

proof fn lemma_apply_edge_concat(m: Map<Seq<char>, EdgeShape>, a: Seq<SchemaOpView>, b: Seq<SchemaOpView>)
    ensures
        apply_edge_ops(m, a + b) == apply_edge_ops(apply_edge_ops(m, a), b),
    decreases b.len(),
{
    if b.len() == 0 {
        assert(a + b =~= a);
    } else {
        lemma_apply_edge_concat(m, a, b.drop_last());
        assert((a + b).drop_last() =~= a + b.drop_last());
    }
}

/// No operation of the sequence creates or drops an edge.
pub open spec fn no_edge_ops(ops: Seq<SchemaOpView>) -> bool {
    forall|i: int| 0 <= i < ops.len() ==> !(#[trigger] ops[i] is CreateEdge) && !(ops[i] is DropEdge)
}

proof fn lemma_no_edge_ops_apply(m: Map<Seq<char>, EdgeShape>, ops: Seq<SchemaOpView>)
    requires
        no_edge_ops(ops),
    ensures
        apply_edge_ops(m, ops) == m,
    decreases ops.len(),
{
    if ops.len() > 0 {
        assert(ops.last() == ops[ops.len() - 1]);
        assert forall|i: int| 0 <= i < ops.drop_last().len() implies !(#[trigger] ops.drop_last()[i] is CreateEdge)
            && !(ops.drop_last()[i] is DropEdge) by {
            assert(ops.drop_last()[i] == ops[i]);
        }
        lemma_no_edge_ops_apply(m, ops.drop_last());
    }
}

proof fn lemma_no_edge_ops_concat(a: Seq<SchemaOpView>, b: Seq<SchemaOpView>)
    requires
        no_edge_ops(a),
        no_edge_ops(b),
    ensures
        no_edge_ops(a + b),
{
    assert forall|i: int| 0 <= i < (a + b).len() implies !(#[trigger] (a + b)[i] is CreateEdge)
        && !((a + b)[i] is DropEdge) by {
        if i < a.len() {
            assert((a + b)[i] == a[i]);
        } else {
            assert((a + b)[i] == b[i - a.len()]);
        }
    }
}

proof fn lemma_field_run_no_edges(p: FieldPass, t: Seq<char>, cm: crate::snapshot::ModelView, tm: crate::snapshot::ModelView, ks: Seq<Seq<char>>)
    ensures
        no_edge_ops(field_run(p, t, cm, tm, ks).0),
        no_edge_ops(field_run(p, t, cm, tm, ks).1),
    decreases ks.len(),
{
    if ks.len() > 0 {
        lemma_field_run_no_edges(p, t, cm, tm, ks.drop_last());
        let prev = field_run(p, t, cm, tm, ks.drop_last());
        let step = crate::diff::field_step(p, t, cm, tm, ks.last());
        assert(no_edge_ops(step.0));
        assert(no_edge_ops(step.1));
        lemma_no_edge_ops_concat(prev.0, step.0);
        lemma_no_edge_ops_concat(prev.1, step.1);
    }
}

/// The table passes of a diff create and drop no edges.
proof fn lemma_table_run_no_edges(p: Pass, cur: SnapshotView, tgt: SnapshotView, ks: Seq<Seq<char>>)
    requires
        p is NewTables || p is GoneTables || p is SharedTables,
    ensures
        no_edge_ops(table_run(p, cur, tgt, ks).0),
        no_edge_ops(table_run(p, cur, tgt, ks).1),
    decreases ks.len(),
{
    if ks.len() > 0 {
        lemma_table_run_no_edges(p, cur, tgt, ks.drop_last());
        let k = ks.last();
        let prev = table_run(p, cur, tgt, ks.drop_last());
        let step = crate::diff::table_step(p, cur, tgt, k);
        if p is SharedTables && model_keys(cur.models).contains(k) {
            let cm = model_for(cur.models, k);
            let tm = model_for(tgt.models, k);
            let tf = sorted_keys(field_keys(tm.fields));
            let cf = sorted_keys(field_keys(cm.fields));
            lemma_field_run_no_edges(FieldPass::NewFields, k, cm, tm, tf);
            lemma_field_run_no_edges(FieldPass::GoneFields, k, cm, tm, cf);
            lemma_field_run_no_edges(FieldPass::ChangedFields, k, cm, tm, tf);
            let a = field_run(FieldPass::NewFields, k, cm, tm, tf);
            let b = field_run(FieldPass::GoneFields, k, cm, tm, cf);
            let c = field_run(FieldPass::ChangedFields, k, cm, tm, tf);
            lemma_no_edge_ops_concat(a.0, b.0);
            lemma_no_edge_ops_concat(a.0 + b.0, c.0);
            lemma_no_edge_ops_concat(a.1, b.1);
            lemma_no_edge_ops_concat(a.1 + b.1, c.1);
        }
        assert(no_edge_ops(step.0));
        assert(no_edge_ops(step.1));
        lemma_no_edge_ops_concat(prev.0, step.0);
        lemma_no_edge_ops_concat(prev.1, step.1);
    }
}

proof fn lemma_new_edges_forward(cur: SnapshotView, tgt: SnapshotView, ks: Seq<Seq<char>>, m: Map<Seq<char>, EdgeShape>)
    ensures
        apply_edge_ops(m, table_run(Pass::NewEdges, cur, tgt, ks).0) == Map::new(
            |k: Seq<char>| m.dom().contains(k) || (ks.contains(k) && !edge_keys(cur.edges).contains(k)),
            |k: Seq<char>| if ks.contains(k) && !edge_keys(cur.edges).contains(k) {
                shape_of(edge_for(tgt.edges, k))
            } else {
                m[k]
            },
        ),
    decreases ks.len(),
{
    let run = table_run(Pass::NewEdges, cur, tgt, ks).0;
    let goal = Map::new(
        |k: Seq<char>| m.dom().contains(k) || (ks.contains(k) && !edge_keys(cur.edges).contains(k)),
        |k: Seq<char>| if ks.contains(k) && !edge_keys(cur.edges).contains(k) {
            shape_of(edge_for(tgt.edges, k))
        } else {
            m[k]
        },
    );
    if ks.len() == 0 {
        assert(apply_edge_ops(m, run) =~= goal);
    } else {
        let d = ks.drop_last();
        let k0 = ks.last();
        lemma_new_edges_forward(cur, tgt, d, m);
        let prev = table_run(Pass::NewEdges, cur, tgt, d).0;
        let step = crate::diff::table_step(Pass::NewEdges, cur, tgt, k0).0;
        assert(run == prev + step);
        lemma_apply_edge_concat(m, prev, step);
        let mid = apply_edge_ops(m, prev);
        assert forall|k: Seq<char>| ks.contains(k) <==> (d.contains(k) || k == k0) by {
            if ks.contains(k) {
                let i = choose|i: int| 0 <= i < ks.len() && ks[i] == k;
                if i < ks.len() - 1 {
                    assert(d[i] == k);
                }
            }
            if d.contains(k) {
                let i = choose|i: int| 0 <= i < d.len() && d[i] == k;
                assert(ks[i] == k);
            }
            if k == k0 {
                assert(ks[ks.len() - 1] == k);
            }
        }
        if edge_keys(cur.edges).contains(k0) {
            assert(step.len() == 0);
            assert(step =~= Seq::<SchemaOpView>::empty());
            assert(apply_edge_ops(mid, step) == mid);
        } else {
            assert(step.drop_last() =~= Seq::<SchemaOpView>::empty());
            assert(apply_edge_ops(mid, step.drop_last()) == mid);
            assert(apply_edge_ops(mid, step) == apply_edge_op(mid, step.last()));
        }
        assert(apply_edge_ops(m, run) == apply_edge_ops(mid, step));
        assert(apply_edge_ops(m, run) =~= goal);
    }
}

proof fn lemma_gone_edges_reverse(cur: SnapshotView, tgt: SnapshotView, ks: Seq<Seq<char>>, m: Map<Seq<char>, EdgeShape>)
    ensures
        apply_edge_ops(m, table_run(Pass::GoneEdges, cur, tgt, ks).1) == Map::new(
            |k: Seq<char>| m.dom().contains(k) || (ks.contains(k) && !edge_keys(tgt.edges).contains(k)),
            |k: Seq<char>| if ks.contains(k) && !edge_keys(tgt.edges).contains(k) {
                shape_of(edge_for(cur.edges, k))
            } else {
                m[k]
            },
        ),
    decreases ks.len(),
{
    let run = table_run(Pass::GoneEdges, cur, tgt, ks).1;
    let goal = Map::new(
        |k: Seq<char>| m.dom().contains(k) || (ks.contains(k) && !edge_keys(tgt.edges).contains(k)),
        |k: Seq<char>| if ks.contains(k) && !edge_keys(tgt.edges).contains(k) {
            shape_of(edge_for(cur.edges, k))
        } else {
            m[k]
        },
    );
    if ks.len() == 0 {
        assert(apply_edge_ops(m, run) =~= goal);
    } else {
        let d = ks.drop_last();
        let k0 = ks.last();
        lemma_gone_edges_reverse(cur, tgt, d, m);
        let prev = table_run(Pass::GoneEdges, cur, tgt, d).1;
        let step = crate::diff::table_step(Pass::GoneEdges, cur, tgt, k0).1;
        assert(run == prev + step);
        lemma_apply_edge_concat(m, prev, step);
        let mid = apply_edge_ops(m, prev);
        assert forall|k: Seq<char>| ks.contains(k) <==> (d.contains(k) || k == k0) by {
            if ks.contains(k) {
                let i = choose|i: int| 0 <= i < ks.len() && ks[i] == k;
                if i < ks.len() - 1 {
                    assert(d[i] == k);
                }
            }
            if d.contains(k) {
                let i = choose|i: int| 0 <= i < d.len() && d[i] == k;
                assert(ks[i] == k);
            }
            if k == k0 {
                assert(ks[ks.len() - 1] == k);
            }
        }
        if edge_keys(tgt.edges).contains(k0) {
            assert(step.len() == 0);
            assert(step =~= Seq::<SchemaOpView>::empty());
            assert(apply_edge_ops(mid, step) == mid);
        } else {
            assert(step.drop_last() =~= Seq::<SchemaOpView>::empty());
            assert(apply_edge_ops(mid, step.drop_last()) == mid);
            assert(apply_edge_ops(mid, step) == apply_edge_op(mid, step.last()));
        }
        assert(apply_edge_ops(m, run) == apply_edge_ops(mid, step));
        assert(apply_edge_ops(m, run) =~= goal);
    }
}

proof fn lemma_gone_edges_forward(cur: SnapshotView, tgt: SnapshotView, ks: Seq<Seq<char>>, m: Map<Seq<char>, EdgeShape>)
    ensures
        apply_edge_ops(m, table_run(Pass::GoneEdges, cur, tgt, ks).0) == Map::new(
            |k: Seq<char>| m.dom().contains(k) && !(ks.contains(k) && !edge_keys(tgt.edges).contains(k)),
            |k: Seq<char>| m[k],
        ),
    decreases ks.len(),
{
    let run = table_run(Pass::GoneEdges, cur, tgt, ks).0;
    let goal = Map::new(
        |k: Seq<char>| m.dom().contains(k) && !(ks.contains(k) && !edge_keys(tgt.edges).contains(k)),
        |k: Seq<char>| m[k],
    );
    if ks.len() == 0 {
        assert(apply_edge_ops(m, run) =~= goal);
    } else {
        let d = ks.drop_last();
        let k0 = ks.last();
        lemma_gone_edges_forward(cur, tgt, d, m);
        let prev = table_run(Pass::GoneEdges, cur, tgt, d).0;
        let step = crate::diff::table_step(Pass::GoneEdges, cur, tgt, k0).0;
        assert(run == prev + step);
        lemma_apply_edge_concat(m, prev, step);
        let mid = apply_edge_ops(m, prev);
        assert forall|k: Seq<char>| ks.contains(k) <==> (d.contains(k) || k == k0) by {
            if ks.contains(k) {
                let i = choose|i: int| 0 <= i < ks.len() && ks[i] == k;
                if i < ks.len() - 1 {
                    assert(d[i] == k);
                }
            }
            if d.contains(k) {
                let i = choose|i: int| 0 <= i < d.len() && d[i] == k;
                assert(ks[i] == k);
            }
            if k == k0 {
                assert(ks[ks.len() - 1] == k);
            }
        }
        if edge_keys(tgt.edges).contains(k0) {
            assert(step =~= Seq::<SchemaOpView>::empty());
            assert(apply_edge_ops(mid, step) == mid);
        } else {
            assert(step.drop_last() =~= Seq::<SchemaOpView>::empty());
            assert(apply_edge_ops(mid, step.drop_last()) == mid);
            assert(apply_edge_ops(mid, step) == apply_edge_op(mid, step.last()));
        }
        assert(apply_edge_ops(m, run) == apply_edge_ops(mid, step));
        assert(apply_edge_ops(m, run) =~= goal);
    }
}

proof fn lemma_new_edges_reverse(cur: SnapshotView, tgt: SnapshotView, ks: Seq<Seq<char>>, m: Map<Seq<char>, EdgeShape>)
    ensures
        apply_edge_ops(m, table_run(Pass::NewEdges, cur, tgt, ks).1) == Map::new(
            |k: Seq<char>| m.dom().contains(k) && !(ks.contains(k) && !edge_keys(cur.edges).contains(k)),
            |k: Seq<char>| m[k],
        ),
    decreases ks.len(),
{
    let run = table_run(Pass::NewEdges, cur, tgt, ks).1;
    let goal = Map::new(
        |k: Seq<char>| m.dom().contains(k) && !(ks.contains(k) && !edge_keys(cur.edges).contains(k)),
        |k: Seq<char>| m[k],
    );
    if ks.len() == 0 {
        assert(apply_edge_ops(m, run) =~= goal);
    } else {
        let d = ks.drop_last();
        let k0 = ks.last();
        lemma_new_edges_reverse(cur, tgt, d, m);
        let prev = table_run(Pass::NewEdges, cur, tgt, d).1;
        let step = crate::diff::table_step(Pass::NewEdges, cur, tgt, k0).1;
        assert(run == prev + step);
        lemma_apply_edge_concat(m, prev, step);
        let mid = apply_edge_ops(m, prev);
        assert forall|k: Seq<char>| ks.contains(k) <==> (d.contains(k) || k == k0) by {
            if ks.contains(k) {
                let i = choose|i: int| 0 <= i < ks.len() && ks[i] == k;
                if i < ks.len() - 1 {
                    assert(d[i] == k);
                }
            }
            if d.contains(k) {
                let i = choose|i: int| 0 <= i < d.len() && d[i] == k;
                assert(ks[i] == k);
            }
            if k == k0 {
                assert(ks[ks.len() - 1] == k);
            }
        }
        if edge_keys(cur.edges).contains(k0) {
            assert(step =~= Seq::<SchemaOpView>::empty());
            assert(apply_edge_ops(mid, step) == mid);
        } else {
            assert(step.drop_last() =~= Seq::<SchemaOpView>::empty());
            assert(apply_edge_ops(mid, step.drop_last()) == mid);
            assert(apply_edge_ops(mid, step) == apply_edge_op(mid, step.last()));
        }
        assert(apply_edge_ops(m, run) == apply_edge_ops(mid, step));
        assert(apply_edge_ops(m, run) =~= goal);
    }
}

/// The edges a diff leads to from `cur`: the target's edge names, each new edge with the
/// target's endpoints and fields, each edge of both snapshots as the current one has it.
pub open spec fn edges_reached(cur: SnapshotView, tgt: SnapshotView) -> Map<Seq<char>, EdgeShape> {
    Map::new(
        |k: Seq<char>| edge_keys(tgt.edges).contains(k),
        |k: Seq<char>| if edge_keys(cur.edges).contains(k) {
            shape_of(edge_for(cur.edges, k))
        } else {
            shape_of(edge_for(tgt.edges, k))
        },
    )
}

/// The table operations of a diff, in both directions, touch no edge.
proof fn lemma_diff_tables_no_edges(cur: SnapshotView, tgt: SnapshotView)
    ensures
        no_edge_ops(
            table_run(Pass::NewTables, cur, tgt, sorted_keys(model_keys(tgt.models))).0
                + table_run(Pass::GoneTables, cur, tgt, sorted_keys(model_keys(cur.models))).0
                + table_run(Pass::SharedTables, cur, tgt, sorted_keys(model_keys(tgt.models))).0,
        ),
        no_edge_ops(
            table_run(Pass::NewTables, cur, tgt, sorted_keys(model_keys(tgt.models))).1
                + table_run(Pass::GoneTables, cur, tgt, sorted_keys(model_keys(cur.models))).1
                + table_run(Pass::SharedTables, cur, tgt, sorted_keys(model_keys(tgt.models))).1,
        ),
{
    let tk = sorted_keys(model_keys(tgt.models));
    let ck = sorted_keys(model_keys(cur.models));
    lemma_table_run_no_edges(Pass::NewTables, cur, tgt, tk);
    lemma_table_run_no_edges(Pass::GoneTables, cur, tgt, ck);
    lemma_table_run_no_edges(Pass::SharedTables, cur, tgt, tk);
    let a = table_run(Pass::NewTables, cur, tgt, tk);
    let b = table_run(Pass::GoneTables, cur, tgt, ck);
    let c = table_run(Pass::SharedTables, cur, tgt, tk);
    lemma_no_edge_ops_concat(a.0, b.0);
    lemma_no_edge_ops_concat(a.0 + b.0, c.0);
    lemma_no_edge_ops_concat(a.1, b.1);
    lemma_no_edge_ops_concat(a.1 + b.1, c.1);
}

/// Applying a diff's forward operations to the edges of `cur` creates every edge new in the
/// target with the target's endpoints and fields, drops every edge the target lacks, and
/// keeps the others as they are.
pub proof fn lemma_diff_forward_edges(cur: SnapshotView, tgt: SnapshotView)
    ensures
        apply_edge_ops(edge_shapes(cur), spec_diff(cur, tgt).0) == edges_reached(cur, tgt),
{
    let tk = sorted_keys(model_keys(tgt.models));
    let ck = sorted_keys(model_keys(cur.models));
    let tek = sorted_keys(edge_keys(tgt.edges));
    let cek = sorted_keys(edge_keys(cur.edges));
    lemma_sorted_keys_exist(edge_keys(tgt.edges));
    lemma_sorted_keys_exist(edge_keys(cur.edges));
    let a = table_run(Pass::NewTables, cur, tgt, tk);
    let b = table_run(Pass::GoneTables, cur, tgt, ck);
    let c = table_run(Pass::SharedTables, cur, tgt, tk);
    let d = table_run(Pass::NewEdges, cur, tgt, tek);
    let e = table_run(Pass::GoneEdges, cur, tgt, cek);
    let m0 = edge_shapes(cur);
    lemma_diff_tables_no_edges(cur, tgt);
    lemma_apply_edge_concat(m0, a.0 + b.0 + c.0 + d.0, e.0);
    lemma_apply_edge_concat(m0, a.0 + b.0 + c.0, d.0);
    lemma_no_edge_ops_apply(m0, a.0 + b.0 + c.0);
    lemma_new_edges_forward(cur, tgt, tek, m0);
    let m1 = apply_edge_ops(m0, d.0);
    lemma_gone_edges_forward(cur, tgt, cek, m1);
    assert(spec_diff(cur, tgt).0 == a.0 + b.0 + c.0 + d.0 + e.0);
    assert(apply_edge_ops(m1, e.0) =~= edges_reached(cur, tgt));
}

/// The edges the reverse operations lead back to from `tgt`: the current edge names, each
/// edge the target lacks with the current endpoints and fields, each edge of both as the
/// target has it.
pub open spec fn edges_restored(cur: SnapshotView, tgt: SnapshotView) -> Map<Seq<char>, EdgeShape> {
    Map::new(
        |k: Seq<char>| edge_keys(cur.edges).contains(k),
        |k: Seq<char>| if edge_keys(tgt.edges).contains(k) {
            shape_of(edge_for(tgt.edges, k))
        } else {
            shape_of(edge_for(cur.edges, k))
        },
    )
}

/// Applying a diff's reverse operations to the edges of `tgt` drops every edge the diff
/// created and recreates every edge it dropped with the current endpoints and fields.
pub proof fn lemma_diff_reverse_edges(cur: SnapshotView, tgt: SnapshotView)
    ensures
        apply_edge_ops(edge_shapes(tgt), spec_diff(cur, tgt).1) == edges_restored(cur, tgt),
{
    let tk = sorted_keys(model_keys(tgt.models));
    let ck = sorted_keys(model_keys(cur.models));
    let tek = sorted_keys(edge_keys(tgt.edges));
    let cek = sorted_keys(edge_keys(cur.edges));
    lemma_sorted_keys_exist(edge_keys(tgt.edges));
    lemma_sorted_keys_exist(edge_keys(cur.edges));
    let a = table_run(Pass::NewTables, cur, tgt, tk);
    let b = table_run(Pass::GoneTables, cur, tgt, ck);
    let c = table_run(Pass::SharedTables, cur, tgt, tk);
    let d = table_run(Pass::NewEdges, cur, tgt, tek);
    let e = table_run(Pass::GoneEdges, cur, tgt, cek);
    let m0 = edge_shapes(tgt);
    lemma_diff_tables_no_edges(cur, tgt);
    lemma_apply_edge_concat(m0, a.1 + b.1 + c.1 + d.1, e.1);
    lemma_apply_edge_concat(m0, a.1 + b.1 + c.1, d.1);
    lemma_no_edge_ops_apply(m0, a.1 + b.1 + c.1);
    lemma_new_edges_reverse(cur, tgt, tek, m0);
    let m1 = apply_edge_ops(m0, d.1);
    lemma_gone_edges_reverse(cur, tgt, cek, m1);
    assert(spec_diff(cur, tgt).1 == a.1 + b.1 + c.1 + d.1 + e.1);
    assert(apply_edge_ops(m1, e.1) =~= edges_restored(cur, tgt));
}

/// Where the edges both snapshots declare agree, the forward operations give exactly the
/// target's edges and the reverse operations exactly the current ones.
pub proof fn lemma_diff_edges_round_trip(cur: SnapshotView, tgt: SnapshotView)
    requires
        forall|k: Seq<char>| edge_keys(cur.edges).contains(k) && edge_keys(tgt.edges).contains(k)
            ==> shape_of(edge_for(cur.edges, k)) == shape_of(edge_for(tgt.edges, k)),
    ensures
        apply_edge_ops(edge_shapes(cur), spec_diff(cur, tgt).0) == edge_shapes(tgt),
        apply_edge_ops(edge_shapes(tgt), spec_diff(cur, tgt).1) == edge_shapes(cur),
{
    lemma_diff_forward_edges(cur, tgt);
    lemma_diff_reverse_edges(cur, tgt);
    assert(edges_reached(cur, tgt) =~= edge_shapes(tgt));
    assert(edges_restored(cur, tgt) =~= edge_shapes(cur));
}

} // verus!
